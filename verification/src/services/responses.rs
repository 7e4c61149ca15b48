//! Requests to the OpenAI Responses API, and its answers.

use vstd::prelude::*;
use crate::json;
use crate::json::{Json, JsonView};
use crate::json_text;
use crate::models;
use crate::numbers;
use crate::search;
use crate::text;
use crate::text::CharClass;

verus! {

// ---------------------------------------------------------------------------
// Prompts
// ---------------------------------------------------------------------------
/// What is asked about a slideshow; the caption follows.
pub const SLIDESHOW_PROMPT: &'static str = "Extract all visible text and summarize important non-text visual context from this TikTok slideshow. Caption: ";

/// How a slideshow is to be read.
pub const SLIDESHOW_SYSTEM: &'static str = "You extract creator-video meaning. Return compact text that preserves app names, calls to action, promo language, affiliate language, and the language code of the content.";

/// How a language is to be found.
pub const LANGUAGE_SYSTEM: &'static str = "You classify the dominant natural language of TikTok creator content for a crawler. Return an ISO 639-3 uppercase language code. Use UNKNOWN only when there is not enough language evidence.";

pub const LANGUAGE_RULE_DOMINANT: &'static str = "Use the dominant language used by the creator across bio, captions, and transcripts.";

pub const LANGUAGE_RULE_CAPTIONS: &'static str = "Captions and bio can outweigh a single bad speech-to-text line, background music, lyrics, app UI labels, or English hook words.";

pub const LANGUAGE_RULE_SEVERAL: &'static str = "If several languages are truly central, choose the one most useful for filtering this creator audience.";

pub const LANGUAGE_RULE_CODES: &'static str = "Return ISO 639-3 uppercase codes, for example ENG, SPA, DEU, FRA, HRV, POL, POR, ITA, JPN, NLD, RON, CES, SLK.";

/// How an app is to be found.
pub const CLASSIFY_SYSTEM: &'static str = "You classify TikTok creators for a creator-program crawler. Decide whether the creator repeatedly promotes the same app across recent videos. App promotion can appear in transcripts, captions, or visible screenshots. Be conservative: require the same app in at least two distinct post sections before returning a promoted app.";

/// What the attached images are.
pub const VISUAL_CONTEXT: &'static str = "The attached images are screenshots/cover frames from the TikTok post being classified. Use them to identify app UIs, logos, app names, app screens, and visible promotional context.";

pub const RULE_SECTIONS: &'static str = "The classification_posts_text contains distinct sections labeled Post 1, Post 2, and Post 3. Count support per post section, not per repeated mention.";

pub const RULE_TWO_POSTS: &'static str = "Return promotes_app=true only when the same app is concretely promoted, shown, or discussed in at least 2 distinct post sections among the analyzed recent non-pinned videos.";

pub const RULE_SUPPORT: &'static str = "Set supporting_post_count to the number of distinct post sections that support the returned app. If supporting_post_count is less than 2, promotes_app must be false and app_name/existing_app_name must be null.";

pub const RULE_BIO: &'static str = "Bio evidence can help identify or corroborate the app name, including roles like '<App> ambassador' or 'ambassador for <App>', but the bio does not count as one of the 2 required supporting post sections.";

pub const RULE_VISIBLE: &'static str = "Visible app UI or logo plus spoken/caption context about using it can count for that post section.";

pub const RULE_KNOWN: &'static str = "If the app is in known_app_names, return the canonical known name in existing_app_name.";

pub const RULE_NEW: &'static str = "If the app is clearly promoted but absent from known_app_names, return app_name and is_new_app=true.";

pub const RULE_NONE: &'static str = "If there is no promoted app, app_name and existing_app_name must be null.";

pub const RULE_NAME: &'static str = "Return creator_name as the creator's real or preferred first name when it is reasonably supported by the profile display name, bio, or content. Do not return the TikTok handle as a name. Return the literal string 'unknown' when no name is supported.";

pub const RULE_EMAIL: &'static str = "Return creator_email as the complete email address visible in the bio or analyzed content. Correct harmless spacing introduced by formatting, but never invent an address. Return the literal string 'unknown' when no email is present.";

pub const RULE_LANGUAGE: &'static str = "Set language_code to the dominant natural language used by the creator in the bio, captions, and transcripts. Use ISO 639-3 uppercase codes such as ENG, SPA, DEU, FRA, HRV, POL. Ignore isolated audio glitches, lyrics, UI labels, and mistranscribed one-off phrases when captions or other posts clearly show another language.";

// ---------------------------------------------------------------------------
// The shape of a request
// ---------------------------------------------------------------------------
/// A part of a message that is text.
pub open spec fn text_part(content: Seq<char>) -> JsonView {
    JsonView::Object(
        seq![("type"@, JsonView::Text("input_text"@)), ("text"@, JsonView::Text(content))],
    )
}

/// A part of a message that is an image.
pub open spec fn image_part(data_url: Seq<char>, detail: Seq<char>) -> JsonView {
    JsonView::Object(
        seq![
            ("type"@, JsonView::Text("input_image"@)),
            ("image_url"@, JsonView::Text(data_url)),
            ("detail"@, JsonView::Text(detail)),
        ],
    )
}

/// The parts for the images that could be had.
pub open spec fn image_parts(data_urls: Seq<Seq<char>>, detail: Seq<char>) -> Seq<JsonView> {
    data_urls.map_values(|u: Seq<char>| image_part(u, detail))
}

/// One message of a request.
pub open spec fn message(role: Seq<char>, content: JsonView) -> JsonView {
    JsonView::Object(seq![("role"@, JsonView::Text(role)), ("content"@, content)])
}

/// The schema of an answer: an object with exactly the given properties.
pub open spec fn schema(properties: Seq<(Seq<char>, JsonView)>) -> JsonView {
    JsonView::Object(
        seq![
            ("type"@, JsonView::Text("object"@)),
            ("properties"@, JsonView::Object(properties)),
            (
                "required"@,
                json::text_list(properties.map_values(|p: (Seq<char>, JsonView)| p.0)),
            ),
            ("additionalProperties"@, JsonView::Bool(false)),
        ],
    )
}

/// A request for an answer in the form of the schema.
pub open spec fn request(
    model: Seq<char>,
    system: Seq<char>,
    user_content: Seq<JsonView>,
    name: Seq<char>,
    properties: Seq<(Seq<char>, JsonView)>,
) -> JsonView {
    JsonView::Object(
        seq![
            ("model"@, JsonView::Text(model)),
            (
                "input"@,
                JsonView::List(
                    seq![
                        message("system"@, JsonView::Text(system)),
                        message("user"@, JsonView::List(user_content)),
                    ],
                ),
            ),
            (
                "text"@,
                JsonView::Object(
                    seq![
                        (
                            "format"@,
                            JsonView::Object(
                                seq![
                                    ("type"@, JsonView::Text("json_schema"@)),
                                    ("name"@, JsonView::Text(name)),
                                    ("schema"@, schema(properties)),
                                    ("strict"@, JsonView::Bool(true)),
                                ],
                            ),
                        ),
                    ],
                ),
            ),
        ],
    )
}

/// A part of a message that is text.
pub fn text_part_of(content: &str) -> (r: Json)
    ensures
        r@ == text_part(content@),
{
    let entries: Vec<(String, Json)> = vec![
        json::entry_of("type", json::text_of("input_text")),
        json::entry_of("text", json::text_of(content)),
    ];
    assert(json::entry_views(entries@) =~= text_part(content@)->Object_0);
    json::object_of(entries)
}

/// A part of a message that is an image.
pub fn image_part_of(data_url: &str, detail: &str) -> (r: Json)
    ensures
        r@ == image_part(data_url@, detail@),
{
    let entries: Vec<(String, Json)> = vec![
        json::entry_of("type", json::text_of("input_image")),
        json::entry_of("image_url", json::text_of(data_url)),
        json::entry_of("detail", json::text_of(detail)),
    ];
    assert(json::entry_views(entries@) =~= image_part(data_url@, detail@)->Object_0);
    json::object_of(entries)
}

/// The parts for the images that could be had.
pub fn image_inputs(data_urls: &Vec<String>, detail: &str) -> (r: Vec<Json>)
    ensures
        json::views(r@) == image_parts(search::texts(data_urls@), detail@),
{
    let ghost want = image_parts(search::texts(data_urls@), detail@);
    let mut r: Vec<Json> = Vec::new();
    let mut i: usize = 0;
    while i < data_urls.len()
        invariant
            i <= data_urls@.len(),
            want == image_parts(search::texts(data_urls@), detail@),
            json::views(r@) == want.take(i as int),
        decreases data_urls@.len() - i,
    {
        let ghost before = r@;
        r.push(image_part_of(data_urls[i].as_str(), detail));
        i = i + 1;
        proof {
            assert(json::views(r@) =~= json::views(before).push(want[i - 1]));
            assert(want.take(i as int) =~= want.take(i - 1).push(want[i - 1]));
        }
    }
    assert(want.take(i as int) =~= want);
    r
}

fn message_of(role: &str, content: Json) -> (r: Json)
    ensures
        r@ == message(role@, content@),
{
    let entries: Vec<(String, Json)> = vec![
        json::entry_of("role", json::text_of(role)),
        json::entry_of("content", content),
    ];
    assert(json::entry_views(entries@) =~= message(role@, content@)->Object_0);
    json::object_of(entries)
}

fn schema_of(properties: Vec<(String, Json)>) -> (r: Json)
    ensures
        r@ == schema(json::entry_views(properties@)),
{
    let ghost want = json::entry_views(properties@).map_values(
        |p: (Seq<char>, JsonView)| p.0,
    );
    let mut names: Vec<String> = Vec::new();
    let mut i: usize = 0;
    while i < properties.len()
        invariant
            i <= properties@.len(),
            want == json::entry_views(properties@).map_values(|p: (Seq<char>, JsonView)| p.0),
            search::texts(names@) == want.take(i as int),
        decreases properties@.len() - i,
    {
        let ghost before = names@;
        names.push(properties[i].0.clone());
        i = i + 1;
        proof {
            assert(search::texts(names@) =~= search::texts(before).push(want[i - 1]));
            assert(want.take(i as int) =~= want.take(i - 1).push(want[i - 1]));
        }
    }
    assert(want.take(i as int) =~= want);
    let required: Json = json::text_list_of(&names);
    let entries: Vec<(String, Json)> = vec![
        json::entry_of("type", json::text_of("object")),
        json::entry_of("properties", json::object_of(properties)),
        json::entry_of("required", required),
        json::entry_of("additionalProperties", Json::Bool(false)),
    ];
    assert(json::entry_views(entries@) =~= schema(json::entry_views(properties@))->Object_0);
    json::object_of(entries)
}

fn format_of(name: &str, properties: Vec<(String, Json)>) -> (r: Json)
    ensures
        r@ == JsonView::Object(
            seq![
                ("type"@, JsonView::Text("json_schema"@)),
                ("name"@, JsonView::Text(name@)),
                ("schema"@, schema(json::entry_views(properties@))),
                ("strict"@, JsonView::Bool(true)),
            ],
        ),
{
    let ghost views = json::entry_views(properties@);
    let entries: Vec<(String, Json)> = vec![
        json::entry_of("type", json::text_of("json_schema")),
        json::entry_of("name", json::text_of(name)),
        json::entry_of("schema", schema_of(properties)),
        json::entry_of("strict", Json::Bool(true)),
    ];
    assert(json::entry_views(entries@) =~= seq![
        ("type"@, JsonView::Text("json_schema"@)),
        ("name"@, JsonView::Text(name@)),
        ("schema"@, schema(views)),
        ("strict"@, JsonView::Bool(true)),
    ]);
    json::object_of(entries)
}

fn request_of(
    model: &str,
    system: &str,
    user_content: Vec<Json>,
    name: &str,
    properties: Vec<(String, Json)>,
) -> (r: Json)
    ensures
        r@ == request(
            model@,
            system@,
            json::views(user_content@),
            name@,
            json::entry_views(properties@),
        ),
{
    let ghost content = json::views(user_content@);
    let ghost props = json::entry_views(properties@);
    let ghost want = request(model@, system@, content, name@, props);
    let messages: Vec<Json> = vec![
        message_of("system", json::text_of(system)),
        message_of("user", json::list_of(user_content)),
    ];
    assert(json::views(messages@) =~= seq![
        message("system"@, JsonView::Text(system@)),
        message("user"@, JsonView::List(content)),
    ]);
    let format: Vec<(String, Json)> = vec![
        json::entry_of("format", format_of(name, properties)),
    ];
    assert(json::entry_views(format@) =~= want->Object_0[2].1->Object_0);
    let entries: Vec<(String, Json)> = vec![
        json::entry_of("model", json::text_of(model)),
        json::entry_of("input", json::list_of(messages)),
        json::entry_of("text", json::object_of(format)),
    ];
    assert(json::entry_views(entries@) =~= want->Object_0);
    json::object_of(entries)
}

/// A property of the given type.
pub open spec fn typed(kind: Seq<char>) -> JsonView {
    JsonView::Object(seq![("type"@, JsonView::Text(kind))])
}

/// A property that is a text or nothing.
pub open spec fn text_or_null() -> JsonView {
    JsonView::Object(seq![("type"@, json::text_list(seq!["string"@, "null"@]))])
}

/// A property that is a whole number in a range.
pub open spec fn bounded(low: nat, high: nat) -> JsonView {
    JsonView::Object(
        seq![
            ("type"@, JsonView::Text("integer"@)),
            ("minimum"@, json::number(low)),
            ("maximum"@, json::number(high)),
        ],
    )
}

fn typed_of(kind: &str) -> (r: Json)
    ensures
        r@ == typed(kind@),
{
    let entries: Vec<(String, Json)> = vec![json::entry_of("type", json::text_of(kind))];
    assert(json::entry_views(entries@) =~= typed(kind@)->Object_0);
    json::object_of(entries)
}

fn text_or_null_of() -> (r: Json)
    ensures
        r@ == text_or_null(),
{
    let kinds: Vec<String> = vec!["string".to_string(), "null".to_string()];
    assert(search::texts(kinds@) =~= seq!["string"@, "null"@]);
    let entries: Vec<(String, Json)> = vec![json::entry_of("type", json::text_list_of(&kinds))];
    assert(json::entry_views(entries@) =~= text_or_null()->Object_0);
    json::object_of(entries)
}

fn bounded_of(low: u32, high: u32) -> (r: Json)
    ensures
        r@ == bounded(low as nat, high as nat),
{
    let entries: Vec<(String, Json)> = vec![
        json::entry_of("type", json::text_of("integer")),
        json::entry_of("minimum", json::number_of(low)),
        json::entry_of("maximum", json::number_of(high)),
    ];
    assert(json::entry_views(entries@) =~= bounded(low as nat, high as nat)->Object_0);
    json::object_of(entries)
}

// ---------------------------------------------------------------------------
// The three requests
// ---------------------------------------------------------------------------
/// The properties of a slideshow's content.
pub open spec fn slideshow_properties() -> Seq<(Seq<char>, JsonView)> {
    seq![("text"@, typed("string"@)), ("language_code"@, typed("string"@))]
}

/// The request for the content of a slideshow.
pub open spec fn slideshow(
    model: Seq<char>,
    caption: Option<Seq<char>>,
    images: Seq<JsonView>,
) -> JsonView {
    let caption_text = match caption {
        Some(c) => c,
        None => Seq::empty(),
    };
    request(
        model,
        SLIDESHOW_SYSTEM@,
        seq![text_part(SLIDESHOW_PROMPT@ + caption_text)] + images,
        "slideshow_content"@,
        slideshow_properties(),
    )
}

/// The request for the content of a slideshow.
pub fn slideshow_request(model: &str, caption: &Option<String>, images: Vec<Json>) -> (r: Json)
    ensures
        r@ == slideshow(model@, models::opt_text(*caption), json::views(images@)),
{
    let mut prompt: String = SLIDESHOW_PROMPT.to_string();
    if let Some(c) = caption {
        prompt.append(c.as_str());
    } else {
        assert(prompt@ =~= SLIDESHOW_PROMPT@ + Seq::<char>::empty());
    }
    let ghost image_views = json::views(images@);
    let mut content: Vec<Json> = vec![text_part_of(prompt.as_str())];
    let mut images: Vec<Json> = images;
    content.append(&mut images);
    assert(json::views(content@) =~= seq![text_part(prompt@)] + image_views);
    let properties: Vec<(String, Json)> = vec![
        json::entry_of("text", typed_of("string")),
        json::entry_of("language_code", typed_of("string")),
    ];
    assert(json::entry_views(properties@) =~= slideshow_properties());
    request_of(model, SLIDESHOW_SYSTEM, content, "slideshow_content", properties)
}

/// The rules for finding a language.
pub open spec fn language_rules() -> Seq<Seq<char>> {
    seq![
        LANGUAGE_RULE_DOMINANT@,
        LANGUAGE_RULE_CAPTIONS@,
        LANGUAGE_RULE_SEVERAL@,
        LANGUAGE_RULE_CODES@,
    ]
}

/// The properties of a language classification.
pub open spec fn language_properties() -> Seq<(Seq<char>, JsonView)> {
    seq![
        ("language_code"@, typed("string"@)),
        ("confidence"@, typed("number"@)),
        ("evidence"@, typed("string"@)),
    ]
}

/// What is asked about a creator's language.
pub open spec fn language_question(
    handle: Seq<char>,
    bio: Seq<char>,
    content: Seq<char>,
) -> JsonView {
    JsonView::Object(
        seq![
            ("handle"@, JsonView::Text(handle)),
            ("creator_bio"@, JsonView::Text(bio)),
            ("saved_posts_text"@, JsonView::Text(content)),
            ("decision_rules"@, json::text_list(language_rules())),
        ],
    )
}

/// The request for a creator's language.
pub open spec fn language(
    model: Seq<char>,
    handle: Seq<char>,
    bio: Seq<char>,
    content: Seq<char>,
) -> JsonView {
    request(
        model,
        LANGUAGE_SYSTEM@,
        seq![text_part(json_text::json_text(language_question(handle, bio, content)))],
        "language_classification"@,
        language_properties(),
    )
}

/// The request for a creator's language.
pub fn language_request(model: &str, handle: &str, bio: &str, latest_content: &str) -> (r: Json)
    ensures
        r@ == language(model@, handle@, bio@, latest_content@),
{
    let rules: Vec<String> = vec![
        LANGUAGE_RULE_DOMINANT.to_string(),
        LANGUAGE_RULE_CAPTIONS.to_string(),
        LANGUAGE_RULE_SEVERAL.to_string(),
        LANGUAGE_RULE_CODES.to_string(),
    ];
    assert(search::texts(rules@) =~= language_rules());
    let entries: Vec<(String, Json)> = vec![
        json::entry_of("handle", json::text_of(handle)),
        json::entry_of("creator_bio", json::text_of(bio)),
        json::entry_of("saved_posts_text", json::text_of(latest_content)),
        json::entry_of("decision_rules", json::text_list_of(&rules)),
    ];
    assert(json::entry_views(entries@) =~= language_question(
        handle@,
        bio@,
        latest_content@,
    )->Object_0);
    let question: Json = json::object_of(entries);
    let question_text: String = json_text::to_text(&question);
    let content: Vec<Json> = vec![text_part_of(question_text.as_str())];
    assert(json::views(content@) =~= seq![text_part(question_text@)]);
    let properties: Vec<(String, Json)> = vec![
        json::entry_of("language_code", typed_of("string")),
        json::entry_of("confidence", typed_of("number")),
        json::entry_of("evidence", typed_of("string")),
    ];
    assert(json::entry_views(properties@) =~= language_properties());
    request_of(model, LANGUAGE_SYSTEM, content, "language_classification", properties)
}

/// The rules for finding an app.
pub open spec fn classification_rules() -> Seq<Seq<char>> {
    seq![
        RULE_SECTIONS@,
        RULE_TWO_POSTS@,
        RULE_SUPPORT@,
        RULE_BIO@,
        RULE_VISIBLE@,
        RULE_KNOWN@,
        RULE_NEW@,
        RULE_NONE@,
        RULE_NAME@,
        RULE_EMAIL@,
        RULE_LANGUAGE@,
    ]
}

/// The properties of a classification.
pub open spec fn classification_properties() -> Seq<(Seq<char>, JsonView)> {
    seq![
        ("promotes_app"@, typed("boolean"@)),
        ("app_name"@, text_or_null()),
        ("is_existing_app"@, typed("boolean"@)),
        ("existing_app_name"@, text_or_null()),
        ("is_new_app"@, typed("boolean"@)),
        ("supporting_post_count"@, bounded(0, 3)),
        ("language_code"@, typed("string"@)),
        ("creator_name"@, typed("string"@)),
        ("creator_email"@, typed("string"@)),
        ("confidence"@, typed("number"@)),
        ("evidence"@, typed("string"@)),
    ]
}

/// What is known of a creator when the app is asked for.
pub struct Profile {
    pub handle: String,
    pub display_name: Option<String>,
    pub bio: String,
    pub latest_content: String,
}

/// What is asked about a creator's app.
pub open spec fn classification_question(
    profile: Profile,
    known_apps: Seq<Seq<char>>,
) -> JsonView {
    JsonView::Object(
        seq![
            ("known_app_names"@, json::text_list(known_apps)),
            ("creator_handle"@, JsonView::Text(profile.handle@)),
            (
                "creator_display_name"@,
                JsonView::Text(
                    match profile.display_name {
                        Some(name) => name@,
                        None => "unknown"@,
                    },
                ),
            ),
            ("creator_bio"@, JsonView::Text(profile.bio@)),
            ("classification_posts_text"@, JsonView::Text(profile.latest_content@)),
            ("visual_context"@, JsonView::Text(VISUAL_CONTEXT@)),
            ("decision_rules"@, json::text_list(classification_rules())),
        ],
    )
}

/// The request for a creator's app.
pub open spec fn classification(
    model: Seq<char>,
    profile: Profile,
    known_apps: Seq<Seq<char>>,
    images: Seq<JsonView>,
) -> JsonView {
    request(
        model,
        CLASSIFY_SYSTEM@,
        seq![text_part(json_text::json_text(classification_question(profile, known_apps)))]
            + images,
        "app_ambassador_classification"@,
        classification_properties(),
    )
}

fn classification_user_content(profile: &Profile, known_apps: &Vec<String>) -> (r: Json)
    ensures
        r@ == text_part(
            json_text::json_text(classification_question(*profile, search::texts(known_apps@))),
        ),
{
    let rules: Vec<String> = vec![
        RULE_SECTIONS.to_string(),
        RULE_TWO_POSTS.to_string(),
        RULE_SUPPORT.to_string(),
        RULE_BIO.to_string(),
        RULE_VISIBLE.to_string(),
        RULE_KNOWN.to_string(),
        RULE_NEW.to_string(),
        RULE_NONE.to_string(),
        RULE_NAME.to_string(),
        RULE_EMAIL.to_string(),
        RULE_LANGUAGE.to_string(),
    ];
    assert(search::texts(rules@) =~= classification_rules());
    let name: Json = match &profile.display_name {
        Some(name) => json::text_of(name.as_str()),
        None => json::text_of("unknown"),
    };
    let entries: Vec<(String, Json)> = vec![
        json::entry_of("known_app_names", json::text_list_of(known_apps)),
        json::entry_of("creator_handle", json::text_of(profile.handle.as_str())),
        json::entry_of("creator_display_name", name),
        json::entry_of("creator_bio", json::text_of(profile.bio.as_str())),
        json::entry_of(
            "classification_posts_text",
            json::text_of(profile.latest_content.as_str()),
        ),
        json::entry_of("visual_context", json::text_of(VISUAL_CONTEXT)),
        json::entry_of("decision_rules", json::text_list_of(&rules)),
    ];
    assert(json::entry_views(entries@) =~= classification_question(
        *profile,
        search::texts(known_apps@),
    )->Object_0);
    let question: Json = json::object_of(entries);
    let question_text: String = json_text::to_text(&question);
    text_part_of(question_text.as_str())
}

/// The request for a creator's app.
pub fn classification_request(
    model: &str,
    profile: &Profile,
    known_apps: &Vec<String>,
    images: Vec<Json>,
) -> (r: Json)
    ensures
        r@ == classification(
            model@,
            *profile,
            search::texts(known_apps@),
            json::views(images@),
        ),
{
    let first: Json = classification_user_content(profile, known_apps);
    let ghost image_views = json::views(images@);
    let mut content: Vec<Json> = vec![first];
    let mut images: Vec<Json> = images;
    content.append(&mut images);
    assert(json::views(content@) =~= seq![first@] + image_views);
    let properties: Vec<(String, Json)> = vec![
        json::entry_of("promotes_app", typed_of("boolean")),
        json::entry_of("app_name", text_or_null_of()),
        json::entry_of("is_existing_app", typed_of("boolean")),
        json::entry_of("existing_app_name", text_or_null_of()),
        json::entry_of("is_new_app", typed_of("boolean")),
        json::entry_of("supporting_post_count", bounded_of(0, 3)),
        json::entry_of("language_code", typed_of("string")),
        json::entry_of("creator_name", typed_of("string")),
        json::entry_of("creator_email", typed_of("string")),
        json::entry_of("confidence", typed_of("number")),
        json::entry_of("evidence", typed_of("string")),
    ];
    assert(json::entry_views(properties@) =~= classification_properties());
    request_of(model, CLASSIFY_SYSTEM, content, "app_ambassador_classification", properties)
}

/// Whether a failed request for a creator's app is sent again without images:
/// only where there were images.
pub fn retry_without_images(image_count: usize) -> (r: bool)
    ensures
        r == (image_count > 0),
{
    image_count > 0
}

/// The address that requests are sent to.
pub fn responses_endpoint(base_url: &str) -> (r: String)
    ensures
        r@ == text::trim_end(base_url@, CharClass::Only('/')) + "/responses"@,
{
    let base: String = text::trim_end_of(base_url, CharClass::Only('/'));
    text::concat(base.as_str(), "/responses")
}

// ---------------------------------------------------------------------------
// Answers
// ---------------------------------------------------------------------------
/// The first part of a message that is output text.
pub open spec fn output_part(parts: Seq<JsonView>) -> Option<Seq<char>>
    decreases parts.len(),
{
    if parts.len() == 0 {
        None
    } else if json::text_field(parts[0], "type"@) == Some("output_text"@) && json::text_field(
        parts[0],
        "text"@,
    ) is Some {
        json::text_field(parts[0], "text"@)
    } else {
        output_part(parts.skip(1))
    }
}

/// The first output text among the items of an answer.
pub open spec fn output_among(items: Seq<JsonView>) -> Option<Seq<char>>
    decreases items.len(),
{
    if items.len() == 0 {
        None
    } else {
        let here = match json::list_field(items[0], "content"@) {
            Some(parts) => output_part(parts),
            None => None,
        };
        if here is Some {
            here
        } else {
            output_among(items.skip(1))
        }
    }
}

/// The output text of an answer.
pub open spec fn output_text(json: JsonView) -> Option<Seq<char>> {
    if json::text_field(json, "output_text"@) is Some {
        json::text_field(json, "output_text"@)
    } else {
        match json::list_field(json, "output"@) {
            Some(items) => output_among(items),
            None => None,
        }
    }
}

fn find_output_part(parts: &Vec<Json>) -> (r: Option<String>)
    ensures
        models::opt_text(r) == output_part(json::views(parts@)),
{
    let ghost all = json::views(parts@);
    let mut i: usize = 0;
    assert(all.skip(0) =~= all);
    while i < parts.len()
        invariant
            i <= parts@.len(),
            all == json::views(parts@),
            output_part(all) == output_part(all.skip(i as int)),
        decreases parts@.len() - i,
    {
        assert(all.skip(i as int)[0] == parts@[i as int]@);
        assert(all.skip(i as int).skip(1) =~= all.skip(i + 1));
        let is_output: bool = match parts[i].get_text("type") {
            Some(kind) => text::same(kind.as_str(), "output_text"),
            None => false,
        };
        if is_output {
            if let Some(t) = parts[i].get_text("text") {
                return Some(t.clone());
            }
        }
        i = i + 1;
    }
    None
}

/// The output text of an answer.
pub fn extract_output_text(value: &Json) -> (r: Option<String>)
    ensures
        models::opt_text(r) == output_text(value@),
{
    if let Some(t) = value.get_text("output_text") {
        return Some(t.clone());
    }
    let items: &Vec<Json> = match value.get_list("output") {
        Some(items) => items,
        None => {
            return None;
        },
    };
    let ghost all = json::views(items@);
    let mut i: usize = 0;
    assert(all.skip(0) =~= all);
    while i < items.len()
        invariant
            i <= items@.len(),
            all == json::views(items@),
            output_text(value@) == output_among(all),
            output_among(all) == output_among(all.skip(i as int)),
        decreases items@.len() - i,
    {
        assert(all.skip(i as int)[0] == items@[i as int]@);
        assert(all.skip(i as int).skip(1) =~= all.skip(i + 1));
        if let Some(parts) = items[i].get_list("content") {
            let found: Option<String> = find_output_part(parts);
            if found.is_some() {
                return found;
            }
        }
        i = i + 1;
    }
    None
}

/// The first `max` characters, with dots behind them where something is cut.
pub open spec fn truncated(s: Seq<char>, max: nat) -> Seq<char> {
    if s.len() <= max {
        s
    } else {
        s.take(max as int) + "..."@
    }
}

/// The first `max_chars` characters, with dots behind them where something is
/// cut.
pub fn truncate(value: &str, max_chars: usize) -> (r: String)
    ensures
        r@ == truncated(value@, max_chars as nat),
{
    if value.unicode_len() <= max_chars {
        value.to_string()
    } else {
        let head: String = search::cut_to(value, max_chars);
        text::concat(head.as_str(), "...")
    }
}

/// How much of an answer an error shows.
pub const SHOWN_CHARS: usize = 600;

/// Why an answer is no use.
pub enum ResponseError {
    /// The request was refused; with the status and the body of the answer.
    Status { status: String, body: String },
    /// The body is not valid JSON; with the reason.
    InvalidJson(String),
    /// The answer holds no output text; with the body.
    NoOutput(String),
}

impl ResponseError {
    /// The error in words.
    pub open spec fn text(self) -> Seq<char> {
        match self {
            ResponseError::Status { status, body } => "OpenAI Responses API returned "@ + status@
                + ": "@ + body@,
            ResponseError::InvalidJson(reason) =>
                "OpenAI Responses API returned invalid JSON: "@ + reason@,
            ResponseError::NoOutput(body) => "OpenAI response did not contain output text: "@
                + truncated(body@, SHOWN_CHARS as nat),
        }
    }

    /// The error in words.
    pub fn message(&self) -> (r: String)
        ensures
            r@ == self.text(),
    {
        match self {
            ResponseError::Status { status, body } => {
                let mut r: String = "OpenAI Responses API returned ".to_string();
                r.append(status.as_str());
                r.append(": ");
                r.append(body.as_str());
                r
            },
            ResponseError::InvalidJson(reason) => text::concat(
                "OpenAI Responses API returned invalid JSON: ",
                reason.as_str(),
            ),
            ResponseError::NoOutput(body) => {
                let shown: String = truncate(body.as_str(), SHOWN_CHARS);
                text::concat("OpenAI response did not contain output text: ", shown.as_str())
            },
        }
    }
}

/// The output text of an answer with the given status and body.
pub fn read_response(success: bool, status: &str, body: &str) -> (r: Result<
    String,
    ResponseError,
>)
    ensures
        match r {
            Ok(t) => success && json_text::parsed(body@) is Ok && output_text(
                json_text::parsed(body@)->Ok_0,
            ) == Some(t@),
            Err(ResponseError::Status { status: s, body: b }) => !success && s@ == status@ && b@
                == body@,
            Err(ResponseError::InvalidJson(reason)) => success && json_text::parsed(body@) is Err
                && reason@ == json_text::parsed(body@)->Err_0,
            Err(ResponseError::NoOutput(b)) => success && json_text::parsed(body@) is Ok
                && output_text(json_text::parsed(body@)->Ok_0) is None && b@ == body@,
        },
{
    if !success {
        return Err(ResponseError::Status { status: status.to_string(), body: body.to_string() });
    }
    match json_text::parse_json(body) {
        Err(reason) => Err(ResponseError::InvalidJson(reason)),
        Ok(value) => match extract_output_text(&value) {
            Some(t) => Ok(t),
            None => Err(ResponseError::NoOutput(body.to_string())),
        },
    }
}

/// What is said where the output text is not in the form of the schema.
pub fn structured_output_error(output: &str) -> (r: String)
    ensures
        r@ == "failed to parse OpenAI structured output as JSON: "@ + truncated(
            output@,
            SHOWN_CHARS as nat,
        ),
{
    let shown: String = truncate(output, SHOWN_CHARS);
    text::concat("failed to parse OpenAI structured output as JSON: ", shown.as_str())
}

// ---------------------------------------------------------------------------
// Images
// ---------------------------------------------------------------------------
/// The greatest size of an image that is sent along, in bytes.
pub const MAX_OPENAI_IMAGE_BYTES: usize = 8_388_608;

/// How many images are sent along with the request for a creator's app.
pub const CLASSIFICATION_IMAGES: usize = 9;

/// The text that `base64::engine::general_purpose::STANDARD` encodes bytes as.
pub uninterp spec fn base64_text(bytes: Seq<u8>) -> Seq<char>;

/// `base64::Engine::encode` of the standard engine. The contract names the text
/// and gives its length, four characters for each three bytes begun. The call
/// panics only where that length is out of range.
#[verifier::external_body]
fn encode_base64(bytes: &Vec<u8>) -> (r: String)
    requires
        bytes@.len() <= MAX_OPENAI_IMAGE_BYTES,
    ensures
        r@ == base64_text(bytes@),
        r@.len() == (bytes@.len() + 2) / 3 * 4,
{
    base64::Engine::encode(&base64::engine::general_purpose::STANDARD, bytes)
}

/// The media type of an image: what the answer says, without parameters, where
/// that is an image.
pub open spec fn image_type(content_type: Option<Seq<char>>) -> Seq<char> {
    match content_type {
        Some(t) => {
            let kind = text::trim(search::up_to(t, seq![';']));
            if search::starts_with(kind, "image/"@) {
                kind
            } else {
                "image/jpeg"@
            }
        },
        None => "image/jpeg"@,
    }
}

/// The media type of an image.
pub fn image_content_type(content_type: &Option<String>) -> (r: String)
    ensures
        r@ == image_type(models::opt_text(*content_type)),
{
    match content_type {
        Some(t) => {
            let v: Vec<char> = text::chars_of(t.as_str());
            let stops: Vec<char> = vec![';'];
            assert(stops@ =~= seq![';']);
            let head: Vec<char> = search::cut_at_any(&v, &stops);
            let to: usize = head.len();
            let head_text: String = text::string_of(&head, 0, to);
            assert(head@.subrange(0, to as int) =~= head@);
            let kind: String = text::trim_of(head_text.as_str());
            if search::starts_with_text(kind.as_str(), "image/") {
                kind
            } else {
                "image/jpeg".to_string()
            }
        },
        None => "image/jpeg".to_string(),
    }
}

/// Why an image is not sent along.
pub enum ImageError {
    /// The request was refused; with the status and the size of the answer.
    Status { status: String, size: usize },
    /// There is nothing in the image.
    Empty,
    /// The image is too large; with its size.
    TooLarge(usize),
}

impl ImageError {
    /// The error in words.
    pub open spec fn text(self) -> Seq<char> {
        match self {
            ImageError::Status { status, size } => "visual image fetch returned "@ + status@
                + " with "@ + numbers::decimal(size as nat) + " bytes"@,
            ImageError::Empty => "visual image fetch returned an empty body"@,
            ImageError::TooLarge(size) => "visual image fetch returned "@ + numbers::decimal(
                size as nat,
            ) + " bytes, above the "@ + numbers::decimal(MAX_OPENAI_IMAGE_BYTES as nat)
                + " byte cap"@,
        }
    }

    /// The error in words.
    pub fn message(&self) -> (r: String)
        ensures
            r@ == self.text(),
    {
        match self {
            ImageError::Status { status, size } => {
                let number: String = numbers::decimal_of(*size as u64);
                let mut r: String = "visual image fetch returned ".to_string();
                r.append(status.as_str());
                r.append(" with ");
                r.append(number.as_str());
                r.append(" bytes");
                r
            },
            ImageError::Empty => "visual image fetch returned an empty body".to_string(),
            ImageError::TooLarge(size) => {
                let number: String = numbers::decimal_of(*size as u64);
                let limit: String = numbers::decimal_of(MAX_OPENAI_IMAGE_BYTES as u64);
                let mut r: String = "visual image fetch returned ".to_string();
                r.append(number.as_str());
                r.append(" bytes, above the ");
                r.append(limit.as_str());
                r.append(" byte cap");
                r
            },
        }
    }
}

/// The image as an address that holds its data.
pub fn image_data_url(
    success: bool,
    status: &str,
    content_type: &Option<String>,
    bytes: &Vec<u8>,
) -> (r: Result<String, ImageError>)
    ensures
        match r {
            Ok(url) => success && 0 < bytes@.len() <= MAX_OPENAI_IMAGE_BYTES && url@ == "data:"@
                + image_type(models::opt_text(*content_type)) + ";base64,"@ + base64_text(bytes@),
            Err(ImageError::Status { status: s, size }) => !success && s@ == status@ && size
                == bytes@.len(),
            Err(ImageError::Empty) => success && bytes@.len() == 0,
            Err(ImageError::TooLarge(size)) => success && size == bytes@.len() && size
                > MAX_OPENAI_IMAGE_BYTES,
        },
{
    if !success {
        return Err(ImageError::Status { status: status.to_string(), size: bytes.len() });
    }
    if bytes.len() == 0 {
        return Err(ImageError::Empty);
    }
    if bytes.len() > MAX_OPENAI_IMAGE_BYTES {
        return Err(ImageError::TooLarge(bytes.len()));
    }
    let kind: String = image_content_type(content_type);
    let data: String = encode_base64(bytes);
    let mut url: String = "data:".to_string();
    url.append(kind.as_str());
    url.append(";base64,");
    url.append(data.as_str());
    Ok(url)
}

} // verus!
