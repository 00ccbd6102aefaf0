//! The errors of the library.
use vstd::prelude::*;
use vstd::string::*;

use crate::text::{decimal, enclose, signed_text, unsigned_text};

verus! {

/// Why an operation of the library failed.
#[derive(Debug, PartialEq, Eq)]
pub enum Error {
    /// The path of the voice activity detection model is blank.
    VadModelPathMissing,
    /// Nothing exists at the path of the voice activity detection model.
    VadModelNotFound(String),
    /// The path of the voice activity detection model names something else than a file.
    VadModelNotAFile(String),
    /// The path of a model is blank.
    ModelPathMissing,
    /// The path of a model does not end in a name.
    ModelPathWithoutFileName(String),
    /// The file name of a model is not valid Unicode.
    ModelFileNameNotUnicode(String),
    /// The file name of a model is blank.
    ModelFileNameEmpty(String),
    /// Two models have the same key: that key, and the path of the second model.
    DuplicateModelKey(String, String),
    /// Something outside of the library failed, such as loading a model; its own words.
    Outside(String),
    /// There is no model.
    NoModels,
    /// No model has the requested key: that key, and the list of the keys there are.
    UnknownModelKey(String, String),
    /// Inference placed the end of a segment before the start of its window.
    NegativeEndTimestamp(i64),
    /// Inference placed the end of a segment beyond what can be counted.
    EndTimestampTooLarge,
    /// Inference announced a segment that it does not have.
    MissingSegment(usize),
    /// The decoder is gone, and with it the samples.
    ChannelDisconnected,
    /// An output type that does not exist was asked for.
    UnknownOutputType(String),
    /// The file of the media could not be opened.
    InputNotOpened(String),
    /// No media container was recognised.
    ProbeFailed,
    /// The media container holds no audio track.
    NoAudioTrack,
}

/// An [`Error`] whose strings are sequences of characters.
pub enum ErrorView {
    VadModelPathMissing,
    VadModelNotFound(Seq<char>),
    VadModelNotAFile(Seq<char>),
    ModelPathMissing,
    ModelPathWithoutFileName(Seq<char>),
    ModelFileNameNotUnicode(Seq<char>),
    ModelFileNameEmpty(Seq<char>),
    DuplicateModelKey(Seq<char>, Seq<char>),
    Outside(Seq<char>),
    NoModels,
    UnknownModelKey(Seq<char>, Seq<char>),
    NegativeEndTimestamp(i64),
    EndTimestampTooLarge,
    MissingSegment(usize),
    ChannelDisconnected,
    UnknownOutputType(Seq<char>),
    InputNotOpened(Seq<char>),
    ProbeFailed,
    NoAudioTrack,
}

impl View for Error {
    type V = ErrorView;

    open spec fn view(&self) -> ErrorView {
        match self {
            Error::VadModelPathMissing => ErrorView::VadModelPathMissing,
            Error::VadModelNotFound(path) => ErrorView::VadModelNotFound(path@),
            Error::VadModelNotAFile(path) => ErrorView::VadModelNotAFile(path@),
            Error::ModelPathMissing => ErrorView::ModelPathMissing,
            Error::ModelPathWithoutFileName(path) => ErrorView::ModelPathWithoutFileName(path@),
            Error::ModelFileNameNotUnicode(path) => ErrorView::ModelFileNameNotUnicode(path@),
            Error::ModelFileNameEmpty(path) => ErrorView::ModelFileNameEmpty(path@),
            Error::DuplicateModelKey(key, path) => ErrorView::DuplicateModelKey(key@, path@),
            Error::Outside(words) => ErrorView::Outside(words@),
            Error::NoModels => ErrorView::NoModels,
            Error::UnknownModelKey(key, keys) => ErrorView::UnknownModelKey(key@, keys@),
            Error::NegativeEndTimestamp(cs) => ErrorView::NegativeEndTimestamp(*cs),
            Error::EndTimestampTooLarge => ErrorView::EndTimestampTooLarge,
            Error::MissingSegment(index) => ErrorView::MissingSegment(*index),
            Error::ChannelDisconnected => ErrorView::ChannelDisconnected,
            Error::UnknownOutputType(name) => ErrorView::UnknownOutputType(name@),
            Error::InputNotOpened(path) => ErrorView::InputNotOpened(path@),
            Error::ProbeFailed => ErrorView::ProbeFailed,
            Error::NoAudioTrack => ErrorView::NoAudioTrack,
        }
    }
}

impl ErrorView {
    /// What a reader is told of the error.
    pub open spec fn message(self) -> Seq<char> {
        match self {
            ErrorView::VadModelPathMissing => "VAD model path must be provided"@,
            ErrorView::VadModelNotFound(path) => "VAD model not found at '"@ + path + "'"@,
            ErrorView::VadModelNotAFile(path) => "VAD model path is not a file: '"@ + path + "'"@,
            ErrorView::ModelPathMissing => "model path must be provided"@,
            ErrorView::ModelPathWithoutFileName(path) => {
                "model path '"@ + path + "' does not have a filename"@
            },
            ErrorView::ModelFileNameNotUnicode(path) => {
                "model filename for path '"@ + path + "' is not valid UTF-8"@
            },
            ErrorView::ModelFileNameEmpty(path) => {
                "model filename for path '"@ + path + "' is empty"@
            },
            ErrorView::DuplicateModelKey(key, path) => {
                "duplicate model key '"@ + key + "' derived from path '"@ + path + "'"@
            },
            ErrorView::Outside(words) => words,
            ErrorView::NoModels => "at least one whisper model must be provided"@,
            ErrorView::UnknownModelKey(key, keys) => {
                "unknown model key '"@ + key + "' (available: "@ + keys + ")"@
            },
            ErrorView::NegativeEndTimestamp(cs) => {
                "whisper returned negative end timestamp: "@ + decimal(cs as int)
            },
            ErrorView::EndTimestampTooLarge => "whisper end timestamp did not fit in usize"@,
            ErrorView::MissingSegment(index) => {
                "whisper segment "@ + decimal(index as int) + " was missing"@
            },
            ErrorView::ChannelDisconnected => "decoder output channel disconnected"@,
            ErrorView::UnknownOutputType(name) => {
                "unknown output type '"@ + name + "' (expected 'json' or 'vtt')"@
            },
            ErrorView::InputNotOpened(path) => "failed to open input file: "@ + path,
            ErrorView::ProbeFailed => "failed to probe media stream"@,
            ErrorView::NoAudioTrack => "no audio track found"@,
        }
    }
}

impl Error {
    /// What a reader is told of the error.
    pub fn message(&self) -> (r: String)
        ensures
            r@ == self@.message(),
    {
        match self {
            Error::VadModelPathMissing => "VAD model path must be provided".to_owned(),
            Error::VadModelNotFound(path) => {
                enclose("VAD model not found at '", path.as_str(), "'")
            },
            Error::VadModelNotAFile(path) => {
                enclose("VAD model path is not a file: '", path.as_str(), "'")
            },
            Error::ModelPathMissing => "model path must be provided".to_owned(),
            Error::ModelPathWithoutFileName(path) => {
                enclose("model path '", path.as_str(), "' does not have a filename")
            },
            Error::ModelFileNameNotUnicode(path) => {
                enclose("model filename for path '", path.as_str(), "' is not valid UTF-8")
            },
            Error::ModelFileNameEmpty(path) => {
                enclose("model filename for path '", path.as_str(), "' is empty")
            },
            Error::DuplicateModelKey(key, path) => {
                let start = enclose("duplicate model key '", key.as_str(), "' derived from path '");
                enclose(start.as_str(), path.as_str(), "'")
            },
            Error::Outside(words) => words.clone(),
            Error::NoModels => "at least one whisper model must be provided".to_owned(),
            Error::UnknownModelKey(key, keys) => {
                let start = enclose("unknown model key '", key.as_str(), "' (available: ");
                enclose(start.as_str(), keys.as_str(), ")")
            },
            Error::NegativeEndTimestamp(cs) => {
                let mut text = "whisper returned negative end timestamp: ".to_owned();
                text.append(signed_text(*cs).as_str());
                text
            },
            Error::EndTimestampTooLarge => "whisper end timestamp did not fit in usize".to_owned(),
            Error::MissingSegment(index) => {
                enclose("whisper segment ", unsigned_text(*index as u64).as_str(), " was missing")
            },
            Error::ChannelDisconnected => "decoder output channel disconnected".to_owned(),
            Error::UnknownOutputType(name) => {
                enclose("unknown output type '", name.as_str(), "' (expected 'json' or 'vtt')")
            },
            Error::InputNotOpened(path) => {
                let mut text = "failed to open input file: ".to_owned();
                text.append(path.as_str());
                text
            },
            Error::ProbeFailed => "failed to probe media stream".to_owned(),
            Error::NoAudioTrack => "no audio track found".to_owned(),
        }
    }
}

} // verus!
