//! The options of a transcription.
use vstd::prelude::*;

use crate::output_type::OutputType;

verus! {

/// Options of one transcription.
#[derive(Debug)]
pub struct Opts {
    /// Which loaded model to use; the default model when `None`.
    pub model_key: Option<String>,
    /// Translate speech to English.
    pub enable_translate_to_english: bool,
    /// Run voice activity detection in front of the backend.
    pub enable_voice_activity_detection: bool,
    /// Language hint, such as `en`.
    pub language: Option<String>,
    /// Output format.
    pub output_type: OutputType,
    /// Shortest audio window, in seconds, on which inference is run.
    pub incremental_min_window_seconds: usize,
    /// Emit a segment even when inference returned only that one.
    pub emit_single_segments: bool,
}

/// [`Opts`] whose strings are sequences of characters.
pub struct OptsView {
    pub model_key: Option<Seq<char>>,
    pub enable_translate_to_english: bool,
    pub enable_voice_activity_detection: bool,
    pub language: Option<Seq<char>>,
    pub output_type: OutputType,
    pub incremental_min_window_seconds: usize,
    pub emit_single_segments: bool,
}

/// The characters of an optional string.
pub open spec fn optional_string(text: Option<String>) -> Option<Seq<char>> {
    match text {
        None => None,
        Some(text) => Some(text@),
    }
}

impl View for Opts {
    type V = OptsView;

    open spec fn view(&self) -> OptsView {
        OptsView {
            model_key: optional_string(self.model_key),
            enable_translate_to_english: self.enable_translate_to_english,
            enable_voice_activity_detection: self.enable_voice_activity_detection,
            language: optional_string(self.language),
            output_type: self.output_type,
            incremental_min_window_seconds: self.incremental_min_window_seconds,
            emit_single_segments: self.emit_single_segments,
        }
    }
}

} // verus!
