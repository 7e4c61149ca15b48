//! How replies of the services are read.

use vstd::prelude::*;
use crate::json;
use crate::json::JsonView;
use crate::json_text;
use crate::numbers;
use crate::reading;
use crate::search;
use crate::services::elevenlabs;
use crate::services::elevenlabs::{MediaError, TranscriptionStage, TranscriptionStep};
use crate::services::responses;
use crate::services::responses::{ImageError, ResponseError};
use crate::services::scraper;
use crate::services::scraper::{FollowingView, ScraperErrorView};
use crate::text;

verus! {

// ---------------------------------------------------------------------------
// Answers of the model
// ---------------------------------------------------------------------------
/// The part of an answer is its text.
pub open spec fn is_output(part: JsonView) -> bool {
    json::text_field(part, "type"@) == Some("output_text"@) && json::text_field(part, "text"@)
        is Some
}

/// The part at `i` is the first that is the text of the answer.
pub open spec fn is_first_output(parts: Seq<JsonView>, i: int) -> bool {
    &&& 0 <= i < parts.len()
    &&& is_output(parts[i])
    &&& forall|j: int| 0 <= j < i ==> !is_output(#[trigger] parts[j])
}

/// No part of the item is the text of the answer.
pub open spec fn without_output(item: JsonView) -> bool {
    json::list_field(item, "content"@) matches Some(parts) ==> forall|j: int|
        0 <= j < parts.len() ==> !is_output(#[trigger] parts[j])
}

proof fn lemma_output_part(parts: Seq<JsonView>, i: int)
    ensures
        is_first_output(parts, i) ==> responses::output_part(parts) == json::text_field(
            parts[i],
            "text"@,
        ),
        (forall|j: int| 0 <= j < parts.len() ==> !is_output(#[trigger] parts[j]))
            ==> responses::output_part(parts) is None,
    decreases parts.len(),
{
    if parts.len() > 0 {
        let rest = parts.skip(1);
        lemma_output_part(rest, i - 1);
        if is_first_output(parts, i) && i > 0 {
            assert(!is_output(parts[0]));
            assert(rest[i - 1] == parts[i]);
            assert forall|j: int| 0 <= j < i - 1 implies !is_output(#[trigger] rest[j]) by {
                assert(rest[j] == parts[j + 1]);
            }
        }
        if forall|j: int| 0 <= j < parts.len() ==> !is_output(#[trigger] parts[j]) {
            assert(!is_output(parts[0]));
            assert forall|j: int| 0 <= j < rest.len() implies !is_output(#[trigger] rest[j]) by {
                assert(rest[j] == parts[j + 1]);
            }
        }
    }
}

/// The text of an answer is the one that it gives as a whole; else that of the first
/// part that is one, in the first item that has one; else there is none.
pub proof fn law_text_of_an_answer(doc: JsonView, items: Seq<JsonView>, k: int, i: int)
    ensures
        json::text_field(doc, "output_text"@) is Some ==> responses::output_text(doc)
            == json::text_field(doc, "output_text"@),
        json::text_field(doc, "output_text"@) is None && json::list_field(doc, "output"@)
            is None ==> responses::output_text(doc) is None,
        json::text_field(doc, "output_text"@) is None && json::list_field(doc, "output"@) == Some(
            items,
        ) && (forall|j: int| 0 <= j < items.len() ==> without_output(#[trigger] items[j]))
            ==> responses::output_text(doc) is None,
        json::text_field(doc, "output_text"@) is None && json::list_field(doc, "output"@) == Some(
            items,
        ) && 0 <= k < items.len() && (forall|j: int|
            0 <= j < k ==> without_output(#[trigger] items[j])) && json::list_field(
            items[k],
            "content"@,
        ) is Some && is_first_output(json::list_field(items[k], "content"@)->0, i)
            ==> responses::output_text(doc) == json::text_field(
            json::list_field(items[k], "content"@)->0[i],
            "text"@,
        ),
{
    lemma_output_among(items, k, i);
}

proof fn lemma_output_among(items: Seq<JsonView>, k: int, i: int)
    ensures
        (forall|j: int| 0 <= j < items.len() ==> without_output(#[trigger] items[j]))
            ==> responses::output_among(items) is None,
        0 <= k < items.len() && (forall|j: int|
            0 <= j < k ==> without_output(#[trigger] items[j])) && json::list_field(
            items[k],
            "content"@,
        ) is Some && is_first_output(json::list_field(items[k], "content"@)->0, i)
            ==> responses::output_among(items) == json::text_field(
            json::list_field(items[k], "content"@)->0[i],
            "text"@,
        ),
    decreases items.len(),
{
    if items.len() > 0 {
        let rest = items.skip(1);
        lemma_output_among(rest, k - 1, i);
        if json::list_field(items[0], "content"@) is Some {
            lemma_output_part(json::list_field(items[0], "content"@)->0, i);
        }
        if forall|j: int| 0 <= j < items.len() ==> without_output(#[trigger] items[j]) {
            assert(without_output(items[0]));
            assert forall|j: int| 0 <= j < rest.len() implies without_output(
                #[trigger] rest[j],
            ) by {
                assert(rest[j] == items[j + 1]);
            }
        }
        if 0 < k < items.len() && (forall|j: int|
            0 <= j < k ==> without_output(#[trigger] items[j])) {
            assert(without_output(items[0]));
            assert(rest[k - 1] == items[k]);
            assert forall|j: int| 0 <= j < k - 1 implies without_output(#[trigger] rest[j]) by {
                assert(rest[j] == items[j + 1]);
            }
        }
    }
}

/// Of a long text the beginning is shown, and three dots.
pub proof fn law_long_texts_are_cut(s: Seq<char>, max: nat)
    ensures
        s.len() <= max ==> responses::truncated(s, max) == s,
        s.len() > max ==> responses::truncated(s, max) == s.take(max as int) + "..."@,
{
}

/// An answer that cannot be used says why, with the first six hundred characters of
/// it where it has no text.
pub proof fn law_answers_that_cannot_be_used(error: ResponseError)
    ensures
        match error {
            ResponseError::Status { status, body } => error.text()
                == "OpenAI Responses API returned "@ + status@ + ": "@ + body@,
            ResponseError::InvalidJson(reason) => error.text()
                == "OpenAI Responses API returned invalid JSON: "@ + reason@,
            ResponseError::NoOutput(body) => error.text()
                == "OpenAI response did not contain output text: "@ + responses::truncated(
                body@,
                600,
            ),
        },
{
}

/// An image has the type that is given for it, without what follows a semicolon and
/// without white space around it, where that is the type of an image; else it counts
/// as a photograph.
pub proof fn law_type_of_an_image(kind: Seq<char>, rest: Seq<char>)
    requires
        !kind.contains(';'),
    ensures
        responses::image_type(None) == "image/jpeg"@,
        search::starts_with(text::trim(kind), "image/"@) ==> responses::image_type(Some(kind))
            == text::trim(kind) && responses::image_type(Some(kind + seq![';'] + rest))
            == text::trim(kind),
        !search::starts_with(text::trim(kind), "image/"@) ==> responses::image_type(Some(kind))
            == "image/jpeg"@ && responses::image_type(Some(kind + seq![';'] + rest))
            == "image/jpeg"@,
{
    let stops = seq![';'];
    let n = kind.len() as int;
    assert forall|j: int| 0 <= j < n implies !stops.contains(#[trigger] kind[j]) by {
        assert(kind.contains(kind[j]));
    }
    search::lemma_up_to(kind, stops, n);
    assert(kind.take(n) =~= kind);
    let all = kind + seq![';'] + rest;
    assert forall|j: int| 0 <= j < n implies !stops.contains(#[trigger] all[j]) by {
        assert(all[j] == kind[j]);
    }
    assert(all[n] == stops[0]);
    assert(search::first_stop(all, stops, n));
    search::lemma_up_to(all, stops, n);
    assert(all.take(n) =~= kind);
}

/// An image that is not sent along says why.
pub proof fn law_images_that_are_not_sent(error: ImageError)
    ensures
        match error {
            ImageError::Status { status, size } => error.text()
                == "visual image fetch returned "@ + status@ + " with "@ + numbers::decimal(
                size as nat,
            ) + " bytes"@,
            ImageError::Empty => error.text() == "visual image fetch returned an empty body"@,
            ImageError::TooLarge(size) => error.text() == "visual image fetch returned "@
                + numbers::decimal(size as nat) + " bytes, above the "@ + numbers::decimal(
                8388608,
            ) + " byte cap"@,
        },
        responses::MAX_OPENAI_IMAGE_BYTES == 8 * 1024 * 1024,
        responses::CLASSIFICATION_IMAGES == 9,
{
}

// ---------------------------------------------------------------------------
// Transcripts
// ---------------------------------------------------------------------------
/// A form for a transcript names the model, the address where there is one, and asks
/// neither who speaks nor what else is heard.
pub proof fn law_form_for_a_transcript(model: Seq<char>, url: Seq<char>)
    ensures
        elevenlabs::form_fields(model, Some(url)) =~= seq![
            ("model_id"@, model),
            ("source_url"@, url),
            ("diarize"@, "false"@),
            ("tag_audio_events"@, "false"@),
        ],
        elevenlabs::form_fields(model, None) =~= seq![
            ("model_id"@, model),
            ("diarize"@, "false"@),
            ("tag_audio_events"@, "false"@),
        ],
        elevenlabs::MEDIA_FILE_NAME@ == "tiktok-media.mp4"@,
{
}

/// Media that are text are no media.
pub proof fn law_media_that_are_text(rest: Seq<char>, kind: Seq<char>)
    ensures
        elevenlabs::is_text(Some("text/"@ + rest)),
        !elevenlabs::is_text(None),
        elevenlabs::is_text(Some(kind)) ==> kind.len() >= 5 && kind == "text/"@ + kind.skip(5),
{
    reveal_strlit("text/");
    let p = "text/"@;
    assert((p + rest).subrange(0, 5) =~= p);
    if elevenlabs::is_text(Some(kind)) {
        assert(kind =~= kind.subrange(0, 5) + kind.skip(5));
    }
}

/// Media that cannot be used say why.
pub proof fn law_media_that_cannot_be_used(error: MediaError)
    ensures
        match error {
            MediaError::Status { status, size } => error.text() == "media download returned "@
                + status@ + " with "@ + numbers::decimal(size as nat) + " bytes"@,
            MediaError::NotMedia(kind) => error.text() == "media download returned "@ + kind@
                + ", not audio/video"@,
            MediaError::Empty => error.text() == "downloaded media was empty"@,
        },
{
}

/// A transcript is asked for by address; if that fails the media are downloaded, and
/// sent if that succeeds. What succeeds by address or by sending ends it. A failure
/// after the first says both what failed first and what failed now.
pub proof fn law_steps_to_a_transcript(
    stage: TranscriptionStage,
    failure: Option<Seq<char>>,
    step: TranscriptionStep,
)
    requires
        elevenlabs::is_step_after(stage, failure, step),
    ensures
        step is Finished <==> failure is None && !(stage is Download),
        step is Failed <==> failure is Some && !(stage is Remote),
        stage is Remote && failure is Some ==> step->Next_0 is Download
            && step->Next_0->Download_source_error@ == failure->0,
        stage is Download && failure is None ==> step->Next_0 is Upload
            && step->Next_0->Upload_source_error@ == stage->Download_source_error@,
        stage is Download && failure is Some ==> step->Failed_0@
            == stage->Download_source_error@ + "; fallback media download failed: "@ + failure->0,
        stage is Upload && failure is Some ==> step->Failed_0@ == stage->Upload_source_error@
            + "; fallback upload failed: "@ + failure->0,
{
}

// ---------------------------------------------------------------------------
// The scraper
// ---------------------------------------------------------------------------
/// The message speaks of the words, in any case.
pub open spec fn says(message: Seq<char>, words: Seq<char>) -> bool {
    search::contains(text::lower(message), words)
}

/// A crawl goes on without the list of accounts after these errors.
pub proof fn law_errors_that_end_no_crawl(m: Seq<char>)
    ensures
        scraper::speaks_of(m, scraper::nonfatal_words()) <==> {
            ||| says(m, "operation timed out"@)
            ||| says(m, "request timed out"@)
            ||| says(m, "timed out"@)
            ||| says(m, "deadline has elapsed"@)
            ||| says(m, "private profile"@)
            ||| says(m, "private account"@)
            ||| says(m, "following list is private"@)
            ||| says(m, "followers list is private"@)
            ||| says(m, "returned no tiktok following users"@)
            ||| says(m, "returned no tiktok followers"@)
        },
{
    let w = scraper::nonfatal_words();
    let s = text::lower(m);
    assert(w.len() == 10);
    assert(w[0] == "operation timed out"@ && w[1] == "request timed out"@ && w[2] == "timed out"@
        && w[3] == "deadline has elapsed"@ && w[4] == "private profile"@);
    assert(w[5] == "private account"@ && w[6] == "following list is private"@ && w[7]
        == "followers list is private"@ && w[8] == "returned no tiktok following users"@ && w[9]
        == "returned no tiktok followers"@);
    if search::contains_any(s, w) {
        let k = choose|k: int| 0 <= k < w.len() && search::contains(s, #[trigger] w[k]);
        assert(says(m, w[k]));
    }
}

/// A request is tried again after these errors.
pub proof fn law_errors_that_may_pass(m: Seq<char>)
    ensures
        scraper::speaks_of(m, scraper::transient_words()) <==> {
            ||| says(m, "operation timed out"@)
            ||| says(m, "request timed out"@)
            ||| says(m, "deadline has elapsed"@)
            ||| says(m, "error sending request"@)
            ||| says(m, "connection closed"@)
            ||| says(m, "connection reset"@)
            ||| says(m, "connection refused"@)
            ||| says(m, "tcp connect"@)
            ||| says(m, "dns error"@)
        },
{
    let w = scraper::transient_words();
    let s = text::lower(m);
    assert(w.len() == 9);
    assert(w[0] == "operation timed out"@ && w[1] == "request timed out"@ && w[2]
        == "deadline has elapsed"@ && w[3] == "error sending request"@ && w[4]
        == "connection closed"@);
    assert(w[5] == "connection reset"@ && w[6] == "connection refused"@ && w[7] == "tcp connect"@
        && w[8] == "dns error"@);
    if search::contains_any(s, w) {
        let k = choose|k: int| 0 <= k < w.len() && search::contains(s, #[trigger] w[k]);
        assert(says(m, w[k]));
    }
}

/// Base and path are joined by one slash, however many stand between them.
pub proof fn law_address_of_a_request(base: Seq<char>, path: Seq<char>)
    ensures
        scraper::endpoint(base + seq!['/'], path) == scraper::endpoint(base, path),
        scraper::endpoint(base, seq!['/'] + path) == scraper::endpoint(base, path),
        (base.len() == 0 || base.last() != '/') && (path.len() == 0 || path[0] != '/')
            ==> scraper::endpoint(base, path) == base + "/"@ + path,
{
    assert((base + seq!['/']).drop_last() =~= base);
    assert((seq!['/'] + path).skip(1) =~= path);
}

/// A request that failed says why.
pub proof fn law_failed_requests(status: Seq<char>, body: Seq<char>)
    ensures
        scraper::error_text(ScraperErrorView::Status { status: status, body: body })
            == "social profile scraper returned "@ + status + ": "@ + body,
        scraper::error_text(ScraperErrorView::InvalidJson(body))
            == "social profile scraper returned invalid JSON: "@ + body,
        scraper::error_text(ScraperErrorView::Application(body))
            == "social profile scraper returned an application error: "@ + body,
{
}

/// The reply says that it is no success, or an error.
pub open spec fn says_failure(doc: JsonView) -> bool {
    ||| json::field(doc, "success"@) == Some(JsonView::Bool(false))
    ||| json::text_field(doc, "status"@) matches Some(t) && text::lower(t) == text::lower("error"@)
}

/// A reply is a failure exactly if it says so. The failure is then told by its
/// message, else by its error, else by the whole body.
pub proof fn law_failures_that_replies_report(doc: JsonView, body: Seq<char>)
    ensures
        scraper::reported_failure(doc, body) is Some <==> says_failure(doc),
        says_failure(doc) && reading::string_at(doc, seq!["message"@]) is Some
            ==> scraper::reported_failure(doc, body) == reading::string_at(doc, seq!["message"@]),
        says_failure(doc) && reading::string_at(doc, seq!["message"@]) is None
            && reading::string_at(doc, seq!["error"@]) is Some ==> scraper::reported_failure(
            doc,
            body,
        ) == reading::string_at(doc, seq!["error"@]),
        json::field(doc, "success"@) == Some(JsonView::Bool(false)) && reading::string_at(
            doc,
            seq!["message"@],
        ) is None && reading::string_at(doc, seq!["error"@]) is None
            ==> scraper::reported_failure(doc, body) == Some(body),
        says_failure(doc) && json::field(doc, "success"@) != Some(JsonView::Bool(false))
            && reading::string_at(doc, seq!["message"@]) is None && reading::string_at(
            doc,
            seq!["error"@],
        ) is None ==> scraper::reported_failure(doc, body) == Some(
            match reading::string_at(doc, seq!["error.message"@]) {
                Some(t) => t,
                None => body,
            },
        ),
{
    let two = seq!["message"@, "error"@];
    let three = seq!["message"@, "error"@, "error.message"@];
    let none: Seq<Seq<char>> = Seq::empty();
    reveal_with_fuel(reading::first_of, 4);
    assert(two.skip(1) =~= seq!["error"@]);
    assert(three.skip(1) =~= seq!["error"@, "error.message"@]);
    assert(seq!["error"@, "error.message"@].skip(1) =~= seq!["error.message"@]);
    assert(seq!["error.message"@].skip(1) =~= none);
    assert(seq!["error"@].skip(1) =~= none);
    assert(seq!["message"@].skip(1) =~= none);
}

/// A reply counts where its status does, it is a document, and it reports no
/// failure.
pub proof fn law_replies_that_count(success: bool, status: Seq<char>, body: Seq<char>)
    ensures
        ({
            let r = scraper::reply(success, status, body);
            let doc = json_text::parsed(body);
            &&& r is Ok <==> success && doc is Ok && !says_failure(doc->Ok_0)
            &&& r is Ok ==> r->Ok_0 == doc->Ok_0
            &&& !success ==> r == Err::<JsonView, ScraperErrorView>(
                ScraperErrorView::Status { status: status, body: body },
            )
            &&& success && doc is Err ==> r == Err::<JsonView, ScraperErrorView>(
                ScraperErrorView::InvalidJson(doc->Err_0),
            )
            &&& success && doc is Ok && says_failure(doc->Ok_0) ==> r == Err::<
                JsonView,
                ScraperErrorView,
            >(
                ScraperErrorView::Application(scraper::reported_failure(doc->Ok_0, body)->0),
            )
        }),
{
    if json_text::parsed(body) is Ok {
        law_failures_that_replies_report(json_text::parsed(body)->Ok_0, body);
    }
}

// ---------------------------------------------------------------------------
// Pages of accounts
// ---------------------------------------------------------------------------
/// The page says that more follows, and from when on.
pub open spec fn leads_on(page: JsonView, cursor: Seq<char>) -> bool {
    &&& reading::bool_at(page, seq!["hasMore"@, "has_more"@]) == Some(true)
    &&& reading::string_at(page, seq!["min_time"@, "minTime"@]) == Some(cursor)
    &&& cursor != "0"@
    &&& text::trim(cursor).len() > 0
}

/// A page is kept after those before it. Another is asked for, from where the page
/// says, exactly if the page leads on and pages are left.
pub proof fn law_pages_follow_each_other(s: FollowingView, page: JsonView, cursor: Seq<char>)
    requires
        !s.done,
        s.left > 0,
    ensures
        ({
            let t = scraper::after_page(s, page);
            &&& t.pages == s.pages.push(page)
            &&& t.left == s.left - 1
            &&& leads_on(page, cursor) ==> t.cursor == Some(cursor) && (t.done <==> s.left == 1)
            &&& !t.done ==> t.cursor is Some && leads_on(page, t.cursor->0)
        }),
{
}

/// A page of accounts is asked for by handle and in short form, and from the time on
/// that the page before it gave.
pub proof fn law_question_for_a_page(s: FollowingView, handle: Seq<char>)
    ensures
        s.cursor is None ==> scraper::page_params(s, handle) =~= seq![
            ("handle"@, handle),
            ("trim"@, "true"@),
        ],
        s.cursor is Some ==> scraper::page_params(s, handle) =~= seq![
            ("handle"@, handle),
            ("trim"@, "true"@),
            ("min_time"@, s.cursor->0),
        ],
{
}

/// Pages are read one after another until none is asked for.
pub proof fn law_pages_are_read_in_turn(s: FollowingView, page: JsonView, rest: Seq<JsonView>)
    ensures
        scraper::after_pages(s, Seq::empty()) == s,
        s.done ==> scraper::after_pages(s, seq![page] + rest) == s,
        !s.done ==> scraper::after_pages(s, seq![page] + rest) == scraper::after_pages(
            scraper::after_page(s, page),
            rest,
        ),
{
    assert((seq![page] + rest).skip(1) =~= rest);
    assert((seq![page] + rest)[0] == page);
}

} // verus!
