//! The rules by which the server answers requests.
use vstd::prelude::*;

use crate::app_error::{AppError, AppErrorView, Status};
use crate::error::{Error, ErrorView};
use crate::media::{
    check_media, default_track, media_refusal, probe_outcome, probe_source_and_pick_default_track,
    track_result, Track, TrackView,
};
use crate::opts::{optional_string, Opts, OptsView};
use crate::output_type::{parse_output_type, requested_output_type};
use crate::text::{sorted, texts};
use crate::whisper::WhisperBackend;

verus! {

/// The query of a request for a transcription.
#[derive(Debug)]
pub struct TranscribeQuery {
    /// The name of the output format.
    pub output: Option<String>,
    /// The key of the model.
    pub model_key: Option<String>,
    /// Whether to detect voice activity.
    pub enable_vad: Option<bool>,
    /// Whether to translate to English.
    pub translate_to_english: Option<bool>,
    /// The language hint.
    pub language: Option<String>,
}

/// The answer to a request for the models.
#[derive(Debug)]
pub struct ModelsResponse {
    /// The key that is used where a request asks for none.
    pub default_model_key: String,
    /// All keys, in ascending order.
    pub model_keys: Vec<String>,
    /// The path of the voice activity detection model.
    pub vad_model_path: String,
}

/// A flag that is off where the query does not set it.
pub open spec fn flag(value: Option<bool>) -> bool {
    value == Some(true)
}

/// The options that a query asks for, or why it is refused.
pub open spec fn query_outcome(query: TranscribeQuery) -> Result<OptsView, AppErrorView> {
    match requested_output_type(optional_string(query.output)) {
        Err(error) => Err(AppErrorView { status: Status::BadRequest, message: error.message() }),
        Ok(output_type) => Ok(
            OptsView {
                model_key: optional_string(query.model_key),
                enable_translate_to_english: flag(query.translate_to_english),
                enable_voice_activity_detection: flag(query.enable_vad),
                language: optional_string(query.language),
                output_type,
                incremental_min_window_seconds: 1,
                emit_single_segments: false,
            },
        ),
    }
}

/// The options with which a request is served, or why it is refused, given what came of picking
/// a track from its first bytes: media that is not recognised is refused before the query is
/// looked at.
pub open spec fn request_outcome(
    picked: Result<TrackView, ErrorView>,
    query: TranscribeQuery,
) -> Result<OptsView, AppErrorView> {
    match media_refusal(picked) {
        Some(refusal) => Err(refusal),
        None => query_outcome(query),
    }
}

/// A result in which the strings are sequences of characters.
pub open spec fn opts_result(r: Result<Opts, AppError>) -> Result<OptsView, AppErrorView> {
    match r {
        Ok(opts) => Ok(opts@),
        Err(error) => Err(error@),
    }
}

/// Maps a query to the options of a transcription.
pub fn query_opts(query: TranscribeQuery) -> (r: Result<Opts, AppError>)
    ensures
        opts_result(r) == query_outcome(query),
{
    let parsed = match &query.output {
        None => parse_output_type(None),
        Some(output) => parse_output_type(Some(output.as_str())),
    };
    let output_type = match parsed {
        Ok(output_type) => output_type,
        Err(error) => {
            return Err(AppError::bad_request(error.message()));
        },
    };
    Ok(
        Opts {
            model_key: query.model_key,
            enable_translate_to_english: query.translate_to_english.unwrap_or(false),
            enable_voice_activity_detection: query.enable_vad.unwrap_or(false),
            language: query.language,
            output_type,
            incremental_min_window_seconds: 1,
            emit_single_segments: false,
        },
    )
}

/// Answers a request by what came of picking a track from its first bytes, and by its query.
pub fn answer_request(picked: Result<Track, Error>, query: TranscribeQuery) -> (r: Result<
    Opts,
    AppError,
>)
    ensures
        opts_result(r) == request_outcome(track_result(picked), query),
{
    match check_media(picked) {
        Ok(()) => query_opts(query),
        Err(refusal) => Err(refusal),
    }
}

/// Decides on a request for a transcription by its first bytes and its query: the options with
/// which it is served, or the answer with which it is refused.
pub fn transcribe(prefix: &[u8], query: TranscribeQuery) -> (r: Result<Opts, AppError>)
    ensures
        opts_result(r) == request_outcome(default_track(probe_outcome(prefix@, None)), query),
{
    answer_request(probe_source_and_pick_default_track(prefix, None), query)
}

/// Lists the models of a backend.
pub fn models<C>(backend: &WhisperBackend<C>) -> (r: ModelsResponse)
    ensures
        r.default_model_key@ == backend@.default_key(),
        texts(r.model_keys@) == sorted(backend@.keys()),
        r.vad_model_path@ == backend@.vad_model_path,
{
    ModelsResponse {
        default_model_key: backend.default_model_key().to_owned(),
        model_keys: backend.model_keys(),
        vad_model_path: backend.vad_model_path().to_owned(),
    }
}

} // verus!
