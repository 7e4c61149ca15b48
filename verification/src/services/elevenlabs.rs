//! Transcribing posts with the ElevenLabs API.

use vstd::prelude::*;
use crate::models;
use crate::models::{ContentView, ExtractedContent};
use crate::numbers;
use crate::search;
use crate::services::scraper;
use crate::text;
use crate::text::CharClass;

verus! {

/// The name under which downloaded media are sent.
pub const MEDIA_FILE_NAME: &'static str = "tiktok-media.mp4";

/// The address that media are sent to.
pub fn speech_to_text_endpoint(base_url: &str) -> (r: String)
    ensures
        r@ == text::trim_end(base_url@, CharClass::Only('/')) + "/v1/speech-to-text"@,
{
    let base: String = text::trim_end_of(base_url, CharClass::Only('/'));
    text::concat(base.as_str(), "/v1/speech-to-text")
}

/// The fields of a form: the model, the address of the media where they are not
/// sent along, and what is not wanted of the answer.
pub open spec fn form_fields(
    model_id: Seq<char>,
    source_url: Option<Seq<char>>,
) -> Seq<(Seq<char>, Seq<char>)> {
    let options = seq![("diarize"@, "false"@), ("tag_audio_events"@, "false"@)];
    match source_url {
        Some(url) => seq![("model_id"@, model_id), ("source_url"@, url)] + options,
        None => seq![("model_id"@, model_id)] + options,
    }
}

/// The fields of a form.
pub fn transcription_fields(model_id: &str, source_url: &Option<String>) -> (r: Vec<
    (String, String),
>)
    ensures
        scraper::params_view(r@) == form_fields(model_id@, models::opt_text(*source_url)),
{
    let mut r: Vec<(String, String)> = vec![("model_id".to_string(), model_id.to_string())];
    if let Some(url) = source_url {
        r.push(("source_url".to_string(), url.clone()));
    }
    r.push(("diarize".to_string(), "false".to_string()));
    r.push(("tag_audio_events".to_string(), "false".to_string()));
    assert(scraper::params_view(r@) =~= form_fields(model_id@, models::opt_text(*source_url)));
    r
}

/// The content of a transcript.
pub fn transcript_content(text: String, language_code: Option<String>) -> (r: ExtractedContent)
    ensures
        r@ == models::normal_content(
            ContentView {
                text: text@,
                language_code: match language_code {
                    Some(code) => code@,
                    None => models::UNKNOWN_LANGUAGE@,
                },
            },
        ),
{
    let code: String = match language_code {
        Some(code) => code,
        None => models::UNKNOWN_LANGUAGE.to_string(),
    };
    ExtractedContent { text, language_code: code }.normalized()
}

/// What is said where a transcription is refused.
pub fn transcription_error(status: &str, body: &str) -> (r: String)
    ensures
        r@ == "ElevenLabs speech-to-text returned "@ + status@ + ": "@ + body@,
{
    let mut r: String = "ElevenLabs speech-to-text returned ".to_string();
    r.append(status);
    r.append(": ");
    r.append(body);
    r
}

// ---------------------------------------------------------------------------
// Downloaded media
// ---------------------------------------------------------------------------
/// Why downloaded media are no use.
pub enum MediaError {
    /// The request was refused; with the status and the size of the answer.
    Status { status: String, size: usize },
    /// The answer is text; with its media type.
    NotMedia(String),
    /// There is nothing in the answer.
    Empty,
}

impl MediaError {
    /// The error in words.
    pub open spec fn text(self) -> Seq<char> {
        match self {
            MediaError::Status { status, size } => "media download returned "@ + status@
                + " with "@ + numbers::decimal(size as nat) + " bytes"@,
            MediaError::NotMedia(kind) => "media download returned "@ + kind@
                + ", not audio/video"@,
            MediaError::Empty => "downloaded media was empty"@,
        }
    }

    /// The error in words.
    pub fn message(&self) -> (r: String)
        ensures
            r@ == self.text(),
    {
        match self {
            MediaError::Status { status, size } => {
                let number: String = numbers::decimal_of(*size as u64);
                let mut r: String = "media download returned ".to_string();
                r.append(status.as_str());
                r.append(" with ");
                r.append(number.as_str());
                r.append(" bytes");
                r
            },
            MediaError::NotMedia(kind) => {
                let mut r: String = "media download returned ".to_string();
                r.append(kind.as_str());
                r.append(", not audio/video");
                r
            },
            MediaError::Empty => "downloaded media was empty".to_string(),
        }
    }
}

/// The answer says that it is text.
pub open spec fn is_text(content_type: Option<Seq<char>>) -> bool {
    match content_type {
        Some(kind) => search::starts_with(kind, "text/"@),
        None => false,
    }
}

/// Whether downloaded media can be sent on.
pub fn check_media(
    success: bool,
    status: &str,
    content_type: &Option<String>,
    size: usize,
) -> (r: Result<(), MediaError>)
    ensures
        match r {
            Ok(_) => success && !is_text(models::opt_text(*content_type)) && size > 0,
            Err(MediaError::Status { status: s, size: n }) => !success && s@ == status@ && n
                == size,
            Err(MediaError::NotMedia(kind)) => success && is_text(models::opt_text(*content_type))
                && models::opt_text(*content_type) == Some(kind@),
            Err(MediaError::Empty) => success && !is_text(models::opt_text(*content_type)) && size
                == 0,
        },
{
    if !success {
        return Err(MediaError::Status { status: status.to_string(), size });
    }
    if let Some(kind) = content_type {
        if search::starts_with_text(kind.as_str(), "text/") {
            return Err(MediaError::NotMedia(kind.clone()));
        }
    }
    if size == 0 {
        Err(MediaError::Empty)
    } else {
        Ok(())
    }
}

// ---------------------------------------------------------------------------
// Falling back on a download
// ---------------------------------------------------------------------------
/// How far the transcription of a post has come. What the service said to the
/// first attempt is kept.
pub enum TranscriptionStage {
    /// The service fetches the media itself.
    Remote,
    /// The media are downloaded.
    Download { source_error: String },
    /// The downloaded media are sent along.
    Upload { source_error: String },
}

/// What follows one stage of a transcription.
pub enum TranscriptionStep {
    /// The transcript is there.
    Finished,
    /// Another stage follows.
    Next(TranscriptionStage),
    /// There is no transcript; with the reason.
    Failed(String),
}

/// The step that follows a stage: after a failure of the service, the media are
/// downloaded and sent along; a failure then is final.
pub open spec fn is_step_after(
    stage: TranscriptionStage,
    failure: Option<Seq<char>>,
    step: TranscriptionStep,
) -> bool {
    match (stage, failure) {
        (TranscriptionStage::Remote, None) => step is Finished,
        (TranscriptionStage::Remote, Some(error)) => {
            &&& step matches TranscriptionStep::Next(next)
            &&& next matches TranscriptionStage::Download { source_error }
            &&& source_error@ == error
        },
        (TranscriptionStage::Download { source_error }, None) => {
            &&& step matches TranscriptionStep::Next(next)
            &&& next matches TranscriptionStage::Upload { source_error: kept }
            &&& kept@ == source_error@
        },
        (TranscriptionStage::Download { source_error }, Some(error)) => {
            &&& step matches TranscriptionStep::Failed(reason)
            &&& reason@ == source_error@ + "; fallback media download failed: "@ + error
        },
        (TranscriptionStage::Upload { .. }, None) => step is Finished,
        (TranscriptionStage::Upload { source_error }, Some(error)) => {
            &&& step matches TranscriptionStep::Failed(reason)
            &&& reason@ == source_error@ + "; fallback upload failed: "@ + error
        },
    }
}

/// The step that follows a stage.
pub fn after_stage(stage: TranscriptionStage, failure: Option<String>) -> (r: TranscriptionStep)
    ensures
        is_step_after(stage, models::opt_text(failure), r),
{
    match stage {
        TranscriptionStage::Remote => match failure {
            None => TranscriptionStep::Finished,
            Some(error) => TranscriptionStep::Next(
                TranscriptionStage::Download { source_error: error },
            ),
        },
        TranscriptionStage::Download { source_error } => match failure {
            None => TranscriptionStep::Next(TranscriptionStage::Upload { source_error }),
            Some(error) => {
                let mut r: String = source_error;
                r.append("; fallback media download failed: ");
                r.append(error.as_str());
                TranscriptionStep::Failed(r)
            },
        },
        TranscriptionStage::Upload { source_error } => match failure {
            None => TranscriptionStep::Finished,
            Some(error) => {
                let mut r: String = source_error;
                r.append("; fallback upload failed: ");
                r.append(error.as_str());
                TranscriptionStep::Failed(r)
            },
        },
    }
}

} // verus!
