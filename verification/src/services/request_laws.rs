//! What requests to the model say, field by field.

use vstd::prelude::*;
use crate::json;
use crate::json::JsonView;
use crate::json_text;
use crate::services::responses;
use crate::services::responses::Profile;

verus! {

/// The entry at `i` is the field with its name where no entry before it has the
/// name.
proof fn lemma_field_at(entries: Seq<(Seq<char>, JsonView)>, i: int)
    requires
        0 <= i < entries.len(),
        forall|j: int| 0 <= j < i ==> (#[trigger] entries[j]).0 != entries[i].0,
    ensures
        json::field(JsonView::Object(entries), entries[i].0) == Some(entries[i].1),
    decreases i,
{
    if i > 0 {
        let rest = entries.skip(1);
        assert(entries[0].0 != entries[i].0);
        assert(rest[i - 1] == entries[i]);
        assert forall|j: int| 0 <= j < i - 1 implies (#[trigger] rest[j]).0 != rest[i - 1].0 by {
            assert(rest[j] == entries[j + 1]);
        }
        lemma_field_at(rest, i - 1);
    }
}

/// All entries have different names.
pub open spec fn all_named(entries: Seq<(Seq<char>, JsonView)>) -> bool {
    forall|i: int, j: int|
        0 <= i < j < entries.len() ==> (#[trigger] entries[i]).0 != (#[trigger] entries[j]).0
}

/// Every entry of an object is the field with its name where all names differ.
pub proof fn lemma_fields(entries: Seq<(Seq<char>, JsonView)>)
    requires
        all_named(entries),
    ensures
        forall|i: int|
            0 <= i < entries.len() ==> json::field(
                JsonView::Object(entries),
                (#[trigger] entries[i]).0,
            ) == Some(entries[i].1),
{
    assert forall|i: int| 0 <= i < entries.len() implies json::field(
        JsonView::Object(entries),
        (#[trigger] entries[i]).0,
    ) == Some(entries[i].1) by {
        assert forall|j: int| 0 <= j < i implies (#[trigger] entries[j]).0 != entries[i].0 by {}
        lemma_field_at(entries, i);
    }
}

// ---------------------------------------------------------------------------
// Parts
// ---------------------------------------------------------------------------
/// A part of a question says what it is, and holds its text or the address of its
/// image and how closely to look at it.
pub proof fn law_parts_of_a_question(t: Seq<char>, url: Seq<char>, detail: Seq<char>)
    ensures
        json::text_field(responses::text_part(t), "type"@) == Some("input_text"@),
        json::text_field(responses::text_part(t), "text"@) == Some(t),
        json::text_field(responses::image_part(url, detail), "type"@) == Some("input_image"@),
        json::text_field(responses::image_part(url, detail), "image_url"@) == Some(url),
        json::text_field(responses::image_part(url, detail), "detail"@) == Some(detail),
{
    reveal_strlit("type");
    reveal_strlit("text");
    reveal_strlit("image_url");
    reveal_strlit("detail");
    let a = seq![("type"@, JsonView::Text("input_text"@)), ("text"@, JsonView::Text(t))];
    assert("type"@[1] != "text"@[1]);
    assert(all_named(a));
    lemma_fields(a);
    assert(a[0].0 == "type"@ && a[1].0 == "text"@);
    let b = seq![
        ("type"@, JsonView::Text("input_image"@)),
        ("image_url"@, JsonView::Text(url)),
        ("detail"@, JsonView::Text(detail)),
    ];
    assert("type"@.len() != "image_url"@.len());
    assert("type"@.len() != "detail"@.len());
    assert("image_url"@.len() != "detail"@.len());
    assert(all_named(b));
    lemma_fields(b);
    assert(b[0].0 == "type"@ && b[1].0 == "image_url"@ && b[2].0 == "detail"@);
}

/// Each image is a part of its own, in their order.
pub proof fn law_parts_for_images(urls: Seq<Seq<char>>, detail: Seq<char>, i: int)
    requires
        0 <= i < urls.len(),
    ensures
        responses::image_parts(urls, detail).len() == urls.len(),
        json::text_field(responses::image_parts(urls, detail)[i], "image_url"@) == Some(urls[i]),
        json::text_field(responses::image_parts(urls, detail)[i], "detail"@) == Some(detail),
{
    law_parts_of_a_question(Seq::empty(), urls[i], detail);
}

// ---------------------------------------------------------------------------
// Requests
// ---------------------------------------------------------------------------
/// What a request puts to the model: the model, who says what, and the name and the
/// form of the answer.
pub open spec fn asks(
    r: JsonView,
    model: Seq<char>,
    system: Seq<char>,
    user: Seq<JsonView>,
    name: Seq<char>,
    form: JsonView,
) -> bool {
    let input = json::list_field(r, "input"@);
    let format = json::field2(r, "text"@, "format"@);
    &&& json::text_field(r, "model"@) == Some(model)
    &&& input is Some && input->0.len() == 2
    &&& json::text_field(input->0[0], "role"@) == Some("system"@)
    &&& json::text_field(input->0[0], "content"@) == Some(system)
    &&& json::text_field(input->0[1], "role"@) == Some("user"@)
    &&& json::list_field(input->0[1], "content"@) == Some(user)
    &&& format is Some
    &&& json::text_field(format->0, "type"@) == Some("json_schema"@)
    &&& json::text_field(format->0, "name"@) == Some(name)
    &&& json::field(format->0, "schema"@) == Some(form)
    &&& json::field(format->0, "strict"@) == Some(JsonView::Bool(true))
}

proof fn lemma_message(role: Seq<char>, content: JsonView)
    ensures
        json::field(responses::message(role, content), "role"@) == Some(JsonView::Text(role)),
        json::field(responses::message(role, content), "content"@) == Some(content),
{
    reveal_strlit("role");
    reveal_strlit("content");
    let a = seq![("role"@, JsonView::Text(role)), ("content"@, content)];
    assert("role"@.len() != "content"@.len());
    assert(all_named(a));
    lemma_fields(a);
    assert(a[0].0 == "role"@ && a[1].0 == "content"@);
}

/// A request holds the model, a message of the system and one of the user, and the
/// form that the answer has to have.
pub proof fn law_request_asks(
    model: Seq<char>,
    system: Seq<char>,
    user: Seq<JsonView>,
    name: Seq<char>,
    properties: Seq<(Seq<char>, JsonView)>,
)
    ensures
        asks(
            responses::request(model, system, user, name, properties),
            model,
            system,
            user,
            name,
            responses::schema(properties),
        ),
{
    reveal_strlit("model");
    reveal_strlit("input");
    reveal_strlit("text");
    reveal_strlit("type");
    reveal_strlit("name");
    reveal_strlit("schema");
    reveal_strlit("strict");
    reveal_strlit("format");
    let r = responses::request(model, system, user, name, properties);
    let top = r->Object_0;
    assert("model"@[0] != "input"@[0]);
    assert("model"@.len() != "text"@.len());
    assert("input"@.len() != "text"@.len());
    assert(top[0].0 == "model"@ && top[1].0 == "input"@ && top[2].0 == "text"@);
    assert(all_named(top));
    lemma_fields(top);
    lemma_message("system"@, JsonView::Text(system));
    lemma_message("user"@, JsonView::List(user));
    let outer = top[2].1->Object_0;
    assert(outer[0].0 == "format"@);
    lemma_fields(outer);
    let inner = outer[0].1->Object_0;
    assert(inner[0].0 == "type"@ && inner[1].0 == "name"@ && inner[2].0 == "schema"@ && inner[3].0
        == "strict"@);
    assert("type"@[0] != "name"@[0]);
    assert("type"@.len() != "schema"@.len());
    assert("type"@.len() != "strict"@.len());
    assert("name"@.len() != "schema"@.len());
    assert("name"@.len() != "strict"@.len());
    assert("schema"@[1] != "strict"@[1]);
    assert(all_named(inner));
    lemma_fields(inner);
}

/// An answer has to be an object with all of the properties and no other.
pub proof fn law_form_of_an_answer(properties: Seq<(Seq<char>, JsonView)>, i: int)
    ensures
        json::text_field(responses::schema(properties), "type"@) == Some("object"@),
        json::field(responses::schema(properties), "properties"@) == Some(
            JsonView::Object(properties),
        ),
        json::field(responses::schema(properties), "additionalProperties"@) == Some(
            JsonView::Bool(false),
        ),
        json::list_field(responses::schema(properties), "required"@) is Some,
        json::list_field(responses::schema(properties), "required"@)->0.len() == properties.len(),
        0 <= i < properties.len() ==> json::list_field(
            responses::schema(properties),
            "required"@,
        )->0[i] == JsonView::Text(properties[i].0),
{
    reveal_strlit("type");
    reveal_strlit("properties");
    reveal_strlit("required");
    reveal_strlit("additionalProperties");
    let s = responses::schema(properties)->Object_0;
    assert(s[0].0 == "type"@ && s[1].0 == "properties"@ && s[2].0 == "required"@ && s[3].0
        == "additionalProperties"@);
    assert("type"@.len() == 4 && "properties"@.len() == 10 && "required"@.len() == 8
        && "additionalProperties"@.len() == 20);
    assert(all_named(s));
    lemma_fields(s);
}

/// The text parts, the images after them.
pub open spec fn is_user_content(user: Seq<JsonView>, t: Seq<char>, images: Seq<JsonView>) -> bool {
    &&& user.len() == 1 + images.len()
    &&& user.skip(1) == images
    &&& json::text_field(user[0], "type"@) == Some("input_text"@)
    &&& json::text_field(user[0], "text"@) == Some(t)
}

proof fn lemma_user_content(t: Seq<char>, images: Seq<JsonView>)
    ensures
        is_user_content(seq![responses::text_part(t)] + images, t, images),
{
    law_parts_of_a_question(t, Seq::empty(), Seq::empty());
    assert((seq![responses::text_part(t)] + images).skip(1) =~= images);
}

/// The request for a slideshow asks for its text and its language, after its
/// caption, with its images.
pub proof fn law_request_for_a_slideshow(
    model: Seq<char>,
    caption: Option<Seq<char>>,
    images: Seq<JsonView>,
) -> (user: Seq<JsonView>)
    ensures
        asks(
            responses::slideshow(model, caption, images),
            model,
            responses::SLIDESHOW_SYSTEM@,
            user,
            "slideshow_content"@,
            responses::schema(responses::slideshow_properties()),
        ),
        caption is Some ==> is_user_content(
            user,
            responses::SLIDESHOW_PROMPT@ + caption->0,
            images,
        ),
        caption is None ==> is_user_content(user, responses::SLIDESHOW_PROMPT@, images),
{
    let t = match caption {
        Some(c) => responses::SLIDESHOW_PROMPT@ + c,
        None => responses::SLIDESHOW_PROMPT@ + Seq::<char>::empty(),
    };
    assert(responses::SLIDESHOW_PROMPT@ + Seq::<char>::empty() =~= responses::SLIDESHOW_PROMPT@);
    let user = seq![responses::text_part(t)] + images;
    lemma_user_content(t, images);
    law_request_asks(
        model,
        responses::SLIDESHOW_SYSTEM@,
        user,
        "slideshow_content"@,
        responses::slideshow_properties(),
    );
    user
}

/// The request for a language asks for it, how certain it is, and why, after what
/// is known of the creator.
pub proof fn law_request_for_a_language(
    model: Seq<char>,
    handle: Seq<char>,
    bio: Seq<char>,
    posts: Seq<char>,
) -> (user: Seq<JsonView>)
    ensures
        asks(
            responses::language(model, handle, bio, posts),
            model,
            responses::LANGUAGE_SYSTEM@,
            user,
            "language_classification"@,
            responses::schema(responses::language_properties()),
        ),
        is_user_content(
            user,
            json_text::json_text(responses::language_question(handle, bio, posts)),
            Seq::empty(),
        ),
{
    let t = json_text::json_text(responses::language_question(handle, bio, posts));
    let user = seq![responses::text_part(t)];
    lemma_user_content(t, Seq::empty());
    assert(user + Seq::<JsonView>::empty() =~= user);
    law_request_asks(
        model,
        responses::LANGUAGE_SYSTEM@,
        user,
        "language_classification"@,
        responses::language_properties(),
    );
    user
}

/// The request for an app asks for it after what is known of the creator, with the
/// images.
pub proof fn law_request_for_an_app(
    model: Seq<char>,
    profile: Profile,
    known: Seq<Seq<char>>,
    images: Seq<JsonView>,
) -> (user: Seq<JsonView>)
    ensures
        asks(
            responses::classification(model, profile, known, images),
            model,
            responses::CLASSIFY_SYSTEM@,
            user,
            "app_ambassador_classification"@,
            responses::schema(responses::classification_properties()),
        ),
        is_user_content(
            user,
            json_text::json_text(responses::classification_question(profile, known)),
            images,
        ),
{
    let t = json_text::json_text(responses::classification_question(profile, known));
    let user = seq![responses::text_part(t)] + images;
    lemma_user_content(t, images);
    law_request_asks(
        model,
        responses::CLASSIFY_SYSTEM@,
        user,
        "app_ambassador_classification"@,
        responses::classification_properties(),
    );
    user
}

// ---------------------------------------------------------------------------
// What is told of a creator
// ---------------------------------------------------------------------------
/// The document is a list of the texts.
pub open spec fn lists_texts(j: Option<JsonView>, texts: Seq<Seq<char>>) -> bool {
    &&& j matches Some(JsonView::List(items))
    &&& items.len() == texts.len()
    &&& forall|i: int| 0 <= i < items.len() ==> #[trigger] items[i] == JsonView::Text(texts[i])
}

/// The question for a language tells the handle, the bio and the saved posts.
pub proof fn law_question_for_a_language(handle: Seq<char>, bio: Seq<char>, posts: Seq<char>)
    ensures
        ({
            let q = responses::language_question(handle, bio, posts);
            &&& json::text_field(q, "handle"@) == Some(handle)
            &&& json::text_field(q, "creator_bio"@) == Some(bio)
            &&& json::text_field(q, "saved_posts_text"@) == Some(posts)
            &&& lists_texts(json::field(q, "decision_rules"@), responses::language_rules())
        }),
{
    reveal_strlit("handle");
    reveal_strlit("creator_bio");
    reveal_strlit("saved_posts_text");
    reveal_strlit("decision_rules");
    let q = responses::language_question(handle, bio, posts)->Object_0;
    assert(q[0].0 == "handle"@ && q[1].0 == "creator_bio"@ && q[2].0 == "saved_posts_text"@
        && q[3].0 == "decision_rules"@);
    assert("handle"@.len() == 6 && "creator_bio"@.len() == 11 && "saved_posts_text"@.len() == 16
        && "decision_rules"@.len() == 14);
    assert(all_named(q));
    lemma_fields(q);
}

/// The question for an app tells the known apps, the handle, the name where there is
/// one, the bio and what was read of the posts.
pub proof fn law_question_for_an_app(profile: Profile, known: Seq<Seq<char>>)
    ensures
        ({
            let q = responses::classification_question(profile, known);
            &&& lists_texts(json::field(q, "known_app_names"@), known)
            &&& json::text_field(q, "creator_handle"@) == Some(profile.handle@)
            &&& profile.display_name is Some ==> json::text_field(q, "creator_display_name"@)
                == Some(profile.display_name->0@)
            &&& profile.display_name is None ==> json::text_field(q, "creator_display_name"@)
                == Some("unknown"@)
            &&& json::text_field(q, "creator_bio"@) == Some(profile.bio@)
            &&& json::text_field(q, "classification_posts_text"@) == Some(profile.latest_content@)
            &&& json::text_field(q, "visual_context"@) == Some(responses::VISUAL_CONTEXT@)
            &&& lists_texts(json::field(q, "decision_rules"@), responses::classification_rules())
        }),
{
    reveal_strlit("known_app_names");
    reveal_strlit("creator_handle");
    reveal_strlit("creator_display_name");
    reveal_strlit("creator_bio");
    reveal_strlit("classification_posts_text");
    reveal_strlit("visual_context");
    reveal_strlit("decision_rules");
    let q = responses::classification_question(profile, known)->Object_0;
    assert(q[0].0 == "known_app_names"@ && q[1].0 == "creator_handle"@ && q[2].0
        == "creator_display_name"@ && q[3].0 == "creator_bio"@);
    assert(q[4].0 == "classification_posts_text"@ && q[5].0 == "visual_context"@ && q[6].0
        == "decision_rules"@);
    assert("known_app_names"@.len() == 15 && "creator_handle"@.len() == 14
        && "creator_display_name"@.len() == 20 && "creator_bio"@.len() == 11
        && "classification_posts_text"@.len() == 25 && "visual_context"@.len() == 14
        && "decision_rules"@.len() == 14);
    assert("creator_handle"@[0] == 'c' && "visual_context"@[0] == 'v' && "decision_rules"@[0]
        == 'd');
    assert(all_named(q));
    lemma_fields(q);
}

/// An answer on an app gives eleven values: three of them true or false, one a number
/// of posts from none to three, one a certainty, two of them a name or nothing.
pub proof fn law_values_of_an_answer(i: int)
    ensures
        ({
            let p = responses::classification_properties();
            &&& p.len() == 11
            &&& p[0] == ("promotes_app"@, responses::typed("boolean"@))
            &&& p[1] == ("app_name"@, responses::text_or_null())
            &&& p[2] == ("is_existing_app"@, responses::typed("boolean"@))
            &&& p[3] == ("existing_app_name"@, responses::text_or_null())
            &&& p[4] == ("is_new_app"@, responses::typed("boolean"@))
            &&& p[5] == ("supporting_post_count"@, responses::bounded(0, 3))
            &&& p[6] == ("language_code"@, responses::typed("string"@))
            &&& p[7] == ("creator_name"@, responses::typed("string"@))
            &&& p[8] == ("creator_email"@, responses::typed("string"@))
            &&& p[9] == ("confidence"@, responses::typed("number"@))
            &&& p[10] == ("evidence"@, responses::typed("string"@))
        }),
        ({
            let p = responses::language_properties();
            &&& p.len() == 3
            &&& p[0] == ("language_code"@, responses::typed("string"@))
            &&& p[1] == ("confidence"@, responses::typed("number"@))
            &&& p[2] == ("evidence"@, responses::typed("string"@))
        }),
        ({
            let p = responses::slideshow_properties();
            &&& p.len() == 2
            &&& p[0] == ("text"@, responses::typed("string"@))
            &&& p[1] == ("language_code"@, responses::typed("string"@))
        }),
        responses::classification_rules().len() == 11,
        responses::language_rules().len() == 4,
{
}

/// The type of a value is a name, or a list of names; a bounded number says its
/// bounds.
pub proof fn law_types_of_values(kind: Seq<char>, low: nat, high: nat)
    ensures
        json::text_field(responses::typed(kind), "type"@) == Some(kind),
        lists_texts(json::field(responses::text_or_null(), "type"@), seq!["string"@, "null"@]),
        json::text_field(responses::bounded(low, high), "type"@) == Some("integer"@),
        json::field(responses::bounded(low, high), "minimum"@) == Some(json::number(low)),
        json::field(responses::bounded(low, high), "maximum"@) == Some(json::number(high)),
{
    reveal_strlit("type");
    reveal_strlit("minimum");
    reveal_strlit("maximum");
    let a = responses::typed(kind)->Object_0;
    assert(a[0].0 == "type"@);
    lemma_fields(a);
    let b = responses::text_or_null()->Object_0;
    assert(b[0].0 == "type"@);
    lemma_fields(b);
    let c = responses::bounded(low, high)->Object_0;
    assert(c[0].0 == "type"@ && c[1].0 == "minimum"@ && c[2].0 == "maximum"@);
    assert("type"@.len() == 4 && "minimum"@.len() == 7 && "maximum"@.len() == 7);
    assert("minimum"@[1] != "maximum"@[1]);
    assert(all_named(c));
    lemma_fields(c);
}

} // verus!
