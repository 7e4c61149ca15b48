//! Texts, numbers, documents and moments.

use creatorprogram_crawler::db::filters::normalized_values;
use creatorprogram_crawler::floating::Real;
use creatorprogram_crawler::handles::{normalize_handle, normalize_many};
use creatorprogram_crawler::json::{get_path, Json};
use creatorprogram_crawler::json_text::{parse_json, to_text};
use creatorprogram_crawler::models::{
    normalize_language_code, ExtractedContent, LanguageClassification, TiktokPostKind,
};
use creatorprogram_crawler::moment::{
    clock_at, Timestamp, FIRST_SECOND, LAST_SECOND, STALE_SECONDS,
};
use creatorprogram_crawler::numbers::{decimal_of, parse_i64, parse_u64, parse_usize};
use creatorprogram_crawler::order::{comes_before, sort_ignoring_case, sort_texts};
use creatorprogram_crawler::reading::{first_bool, first_string, first_timestamp, first_u64};
use creatorprogram_crawler::search::{cut_to, has_text, join_with, lines_of, split_by};
use creatorprogram_crawler::text::{
    ascii_white, eq_ignoring_case, to_lower, to_upper, trim_of, white,
};

fn json(text: &str) -> Json {
    parse_json(text).unwrap_or_else(|error| panic!("{error}"))
}

fn strings(list: &[&str]) -> Vec<String> {
    list.iter().map(|s| s.to_string()).collect()
}

#[test]
fn white_space_is_what_the_standard_says() {
    for n in 0..0x11_0000u32 {
        if let Some(c) = char::from_u32(n) {
            assert_eq!(white(c), c.is_whitespace(), "{n:x}");
            assert_eq!(ascii_white(c), c.is_ascii_whitespace(), "{n:x}");
        }
    }
}

#[test]
fn texts_are_handled_as_the_standard_does() {
    for s in ["", "  a b\u{3000}", "Äé Zz-9", "\u{85}x\u{2028}", "one\r\ntwo\n\nthree\r", "\n", "a\n"] {
        assert_eq!(trim_of(s), s.trim());
        assert_eq!(to_lower(s), s.to_ascii_lowercase());
        assert_eq!(to_upper(s), s.to_ascii_uppercase());
        assert_eq!(lines_of(s), s.lines().collect::<Vec<_>>());
        assert_eq!(split_by(s, "\n\n"), s.split("\n\n").collect::<Vec<_>>());
        assert_eq!(split_by(s, " "), s.split(' ').collect::<Vec<_>>());
        for t in ["", "a", "b", "\n", "Äé"] {
            assert_eq!(has_text(s, t), s.contains(t));
            assert_eq!(comes_before(s, t), *s < *t);
        }
    }
    assert!(eq_ignoring_case("DuoLingo", "duolingo"));
    assert!(!eq_ignoring_case("É", "é"));
    assert_eq!(join_with(&strings(&["a", "", "b"]), "--"), "a----b");
    assert_eq!(join_with(&strings(&[]), "--"), "");
    assert_eq!(cut_to("äbc", 2), "äb");
    assert_eq!(cut_to("äbc", 3), "äbc");
}

#[test]
fn numbers_are_read_and_written_as_the_standard_does() {
    for n in [0u64, 7, 10, 4_294_967_296, u64::MAX] {
        assert_eq!(decimal_of(n), n.to_string());
        assert_eq!(parse_u64(&n.to_string()), Some(n));
    }
    for s in ["", "+", "-", "+5", "-5", "-0", "05", " 5", "5a", "18446744073709551616",
        "9223372036854775807", "-9223372036854775808", "-9223372036854775809"] {
        assert_eq!(parse_u64(s), s.parse::<u64>().ok(), "{s}");
        assert_eq!(parse_usize(s), s.parse::<usize>().ok(), "{s}");
        assert_eq!(parse_i64(s), s.parse::<i64>().ok(), "{s}");
    }
}

#[test]
fn sorted_texts_hold_each_text_once() {
    let mut plain = strings(&["b", "a", "B", "b", "", "ab"]);
    let sorted = sort_texts(&plain);
    plain.sort();
    plain.dedup();
    assert_eq!(sorted, plain);
    assert_eq!(sort_ignoring_case(&strings(&["b", "A", "a", "B", "c"])), strings(&["A", "b", "c"]));
}

#[test]
fn handles_are_found_in_what_people_write() {
    assert_eq!(normalize_handle("  \"@Some.One\"  ").as_deref(), Some("some.one"));
    assert_eq!(normalize_handle("tiktok.com/@a_b#top").as_deref(), Some("a_b"));
    assert_eq!(normalize_handle("mail@host&x").as_deref(), Some("host"));
    assert_eq!(normalize_handle("@@Twice").as_deref(), Some("twice"));
    assert_eq!(normalize_handle("Ünïque Name").as_deref(), Some("nquename"));
    assert_eq!(normalize_handle("@?x"), None);
    assert_eq!(normalize_handle("''"), None);
}

#[test]
fn canonical_handles_stay_as_they_are() {
    let many = normalize_many(&strings(&["@B", "a", "", "https://tiktok.com/@b", "?"]));
    assert_eq!(many, strings(&["a", "b"]));
    assert_eq!(normalize_many(&many), many);
    for handle in &many {
        assert_eq!(normalize_handle(handle).as_deref(), Some(handle.as_str()));
    }
}

#[test]
fn language_codes_are_never_empty() {
    assert_eq!(normalize_language_code(" eng "), "ENG");
    assert_eq!(normalize_language_code("  "), "UNKNOWN");
    assert_eq!(normalize_language_code(&normalize_language_code("Deu")), "DEU");
    assert_eq!(ExtractedContent::empty().language_code, "UNKNOWN");
    let content = ExtractedContent { text: "t".to_string(), language_code: " spa".to_string() };
    let normal = content.normalized();
    assert_eq!((normal.text.as_str(), normal.language_code.as_str()), ("t", "SPA"));
}

#[test]
fn confidence_is_moved_between_zero_and_one() {
    for (x, want) in [(-0.5f64, 0.0f64), (0.25, 0.25), (1.5, 1.0), (f64::INFINITY, 1.0)] {
        let c = LanguageClassification {
            language_code: "".to_string(),
            confidence: Real { bits: x.to_bits() },
            evidence: "e".to_string(),
        };
        let normal = c.normalized();
        assert_eq!(f64::from_bits(normal.confidence.bits), want);
        assert_eq!(normal.language_code, "UNKNOWN");
    }
    let nan = Real { bits: f64::NAN.to_bits() };
    assert!(nan.nan());
    assert!(f64::from_bits(nan.clamp_unit().bits).is_nan());
}

#[test]
fn numbers_compare_as_the_standard_does() {
    let values = [f64::NEG_INFINITY, -2.5, -0.0, 0.0, 1e-300, 1.0, 7e10, f64::INFINITY, f64::NAN];
    for a in values {
        for b in values {
            let (x, y) = (Real { bits: a.to_bits() }, Real { bits: b.to_bits() });
            assert_eq!(x.less(y), a < b, "{a} {b}");
            assert_eq!(x.at_most(y), a <= b, "{a} {b}");
            let top = f64::from_bits(x.raise_to(y).bits);
            assert!(top == a.max(b) || (a.is_nan() && b.is_nan() && top.is_nan()) || b.is_nan());
        }
    }
}

#[test]
fn the_kind_of_a_post_is_seen_in_its_type_or_address() {
    assert_eq!(TiktokPostKind::from_url_and_type("https://t/Photo/1", None), TiktokPostKind::Photo);
    assert_eq!(
        TiktokPostKind::from_url_and_type("https://t/video/1", Some("SlideShow")),
        TiktokPostKind::Photo
    );
    assert_eq!(
        TiktokPostKind::from_url_and_type("https://t/video/1", Some("clip")),
        TiktokPostKind::Video
    );
}

#[test]
fn documents_are_read_and_written() {
    let value = json(r#"{"b": [1, -2, 2.50, true, null, "x\n"], "a": {"k": 18446744073709551615}}"#);
    assert_eq!(
        to_text(&value),
        r#"{"a":{"k":18446744073709551615},"b":[1,-2,2.5,true,null,"x\n"]}"#
    );
    assert_eq!(to_text(&json(&to_text(&value))), to_text(&value));
    let Json::Object(entries) = &value else { panic!("not an object") };
    assert_eq!(entries.len(), 2);
    assert!(matches!(get_path(&value, "b.3"), Some(Json::Bool(true))));
    assert!(matches!(get_path(&value, "b.9"), None));
    assert!(matches!(get_path(&value, "b.x"), None));
    assert!(matches!(get_path(&value, "a.k"), Some(Json::Number(_))));
    assert_eq!(
        parse_json("[1,").err().as_deref(),
        Some("EOF while parsing a value at line 1 column 3")
    );
}

#[test]
fn fields_are_read_under_several_names() {
    let value = json(
        r#"{"n": 12, "f": 1.5, "t": "1,234", "neg": -1, "b": true, "s": "yes", "z": 0,
            "deep": {"list": [{"x": "in"}]}, "nothing": null}"#,
    );
    assert_eq!(first_string(&value, &["missing", "n"]).as_deref(), Some("12"));
    assert_eq!(first_string(&value, &["f"]).as_deref(), Some("1.5"));
    assert_eq!(first_string(&value, &["nothing", "deep", "b"]).as_deref(), Some("true"));
    assert_eq!(first_string(&value, &["deep.list.0.x"]).as_deref(), Some("in"));
    assert_eq!(first_u64(&value, &["neg", "f", "t"]), Some(1234));
    assert_eq!(first_u64(&value, &["s"]), None);
    assert_eq!(first_bool(&value, &["deep", "z"]), Some(false));
    assert_eq!(first_bool(&value, &["s"]), Some(true));
    assert_eq!(first_bool(&value, &["t"]), None);
}

#[test]
fn moments_are_read_as_numbers_and_as_dates() {
    let value = json(
        r#"{"n": 1710000000, "s": "1710000001", "d": "2024-03-09T16:00:02.5+01:00",
            "bad": "soon", "far": 9223372036854775807}"#,
    );
    let at = |key: &str| first_timestamp(&value, &[key]).map(|t| (t.secs, t.nanos));
    assert_eq!(at("n"), Some((1_710_000_000, 0)));
    assert_eq!(at("s"), Some((1_710_000_001, 0)));
    assert_eq!(at("d"), Some((1_709_996_402, 500_000_000)));
    assert_eq!(at("bad"), None);
    assert_eq!(at("far"), None);
}

#[test]
fn a_claim_is_abandoned_after_a_quarter_of_an_hour() {
    let clock = clock_at(Timestamp { secs: 1_769_904_000, nanos: 500_000_000 }).unwrap();
    assert_eq!(clock.now, "2026-02-01T00:00:00.500+00:00");
    assert_eq!(clock.stale_before, "2026-01-31T23:45:00.500+00:00");
    assert!(clock_at(Timestamp { secs: FIRST_SECOND, nanos: 0 }).is_none());
}

#[test]
fn the_first_and_the_last_second_have_a_date() {
    for (second, dated) in [
        (FIRST_SECOND - 1, false),
        (FIRST_SECOND, true),
        (LAST_SECOND, true),
        (LAST_SECOND + 1, false),
    ] {
        let value = json(&format!(r#"{{"at": {second}}}"#));
        let read = first_timestamp(&value, &["at"]).map(|t| (t.secs, t.nanos));
        assert_eq!(read, if dated { Some((second, 0)) } else { None });
    }
    let first = clock_at(Timestamp { secs: FIRST_SECOND + STALE_SECONDS, nanos: 0 }).unwrap();
    assert_eq!(first.stale_before, "-262143-01-01T00:00:00+00:00");
    let last = clock_at(Timestamp { secs: LAST_SECOND, nanos: 1_999_999_999 }).unwrap();
    assert_eq!(last.now, "+262142-12-31T23:59:60.999999999+00:00");
    let leap = json(r#"{"at": "2016-12-31T23:59:60.5Z"}"#);
    let read = first_timestamp(&leap, &["at"]).map(|t| (t.secs, t.nanos));
    assert_eq!(read, Some((1_483_228_799, 1_500_000_000)));
}

#[test]
fn what_is_in_normal_form_stays_as_it_is() {
    let once = trim_of(" \u{2003}a b ");
    assert_eq!(trim_of(&once), once);
    for x in [-1.0f64, 0.5, 2.0] {
        let clamped = Real { bits: x.to_bits() }.clamp_unit();
        assert!(clamped.clamp_unit() == clamped);
    }
    let content = ExtractedContent { text: " t ".to_string(), language_code: " eng ".to_string() };
    let content = content.normalized();
    assert_eq!((content.text.as_str(), content.language_code.as_str()), (" t ", "ENG"));
    let content = content.normalized();
    assert_eq!((content.text.as_str(), content.language_code.as_str()), (" t ", "ENG"));
    let found = LanguageClassification {
        language_code: " ".to_string(),
        confidence: Real { bits: 3.0f64.to_bits() },
        evidence: " e ".to_string(),
    };
    let found = found.normalized().normalized();
    assert_eq!((found.language_code.as_str(), found.evidence.as_str()), ("UNKNOWN", " e "));
    assert_eq!(f64::from_bits(found.confidence.bits), 1.0);
}

#[test]
fn handles_are_named_in_any_case() {
    for input in [" '@Some.One' ", "https://tiktok.com/@a_b?x=1", "é@q#r", "?", "Ünïque Name"] {
        assert_eq!(normalize_handle(&input.to_ascii_uppercase()), normalize_handle(input));
    }
}

#[test]
fn values_are_kept_in_their_first_spelling() {
    let values = strings(&[" b ", "AB", "", "ab", "B", "\t", "Ab", "a"]);
    let kept = normalized_values(&values);
    assert_eq!(kept, strings(&["a", "AB", "b"]));
    assert_eq!(normalized_values(&kept), kept);
}
