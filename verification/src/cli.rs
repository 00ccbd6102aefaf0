//! The rules of the command line tool.
use vstd::prelude::*;
use vstd::string::*;

use crate::error::{Error, ErrorView};
use crate::opts::{optional_string, Opts, OptsView};
use crate::output_type::OutputType;
use crate::text::same_text;

verus! {

/// The parameters of the command line tool.
#[derive(Debug)]
pub struct Params {
    /// Path of the model.
    pub model_path: String,
    /// Path of the voice activity detection model.
    pub vad_model_path: String,
    /// Path of the media, or `-` for the standard input.
    pub input: String,
    /// Output format.
    pub output_type: OutputType,
    /// Whether to detect voice activity.
    pub enable_voice_activity_detection: bool,
    /// Whether to translate to English.
    pub enable_translation_to_english: bool,
    /// Language hint, such as `en`.
    pub language: Option<String>,
}

/// Where the media is read from.
#[derive(Debug, Clone, Copy, PartialEq, Eq, Structural)]
pub enum Input {
    /// The standard input.
    Stdin,
    /// The file at the given path.
    File,
}

impl Params {
    /// Maps the parameters to the options of a transcription: the default model, windows of at
    /// least one second, and no single segments.
    pub fn opts(&self) -> (r: Opts)
        ensures
            r@ == (OptsView {
                model_key: None,
                enable_translate_to_english: self.enable_translation_to_english,
                enable_voice_activity_detection: self.enable_voice_activity_detection,
                language: optional_string(self.language),
                output_type: self.output_type,
                incremental_min_window_seconds: 1,
                emit_single_segments: false,
            }),
    {
        Opts {
            model_key: None,
            enable_translate_to_english: self.enable_translation_to_english,
            enable_voice_activity_detection: self.enable_voice_activity_detection,
            language: match &self.language {
                None => None,
                Some(language) => Some(language.clone()),
            },
            output_type: self.output_type,
            incremental_min_window_seconds: 1,
            emit_single_segments: false,
        }
    }
}

/// Where the media at `path` is read from.
pub fn input_at(path: &str) -> (r: Input)
    ensures
        r == (if path@ == "-"@ {
            Input::Stdin
        } else {
            Input::File
        }),
{
    if same_text(path, "-") {
        Input::Stdin
    } else {
        Input::File
    }
}

/// Why the media at `path` cannot be read when its file could not be opened.
pub fn input_not_opened(path: &str) -> (r: Error)
    ensures
        r@ == ErrorView::InputNotOpened(path@),
{
    Error::InputNotOpened(path.to_owned())
}

} // verus!
