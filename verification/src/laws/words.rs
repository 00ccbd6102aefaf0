//! Laws of what a reader is told of an error, and of the command line tool.
use vstd::prelude::*;

use crate::cli::{input_at, input_not_opened, Input, Params};
use crate::error::Error;
use crate::laws::answers::same_optional_text;
use crate::opts::Opts;
use crate::text::decimal;

verus! {

/// A text is made of the value with the given words before and behind it, and of nothing else.
pub open spec fn stands_between(
    text: Seq<char>,
    before: Seq<char>,
    value: Seq<char>,
    behind: Seq<char>,
) -> bool {
    &&& text.len() == before.len() + value.len() + behind.len()
    &&& forall|i: int| 0 <= i < before.len() ==> text[i] == #[trigger] before[i]
    &&& forall|i: int| 0 <= i < value.len() ==> text[before.len() + i] == #[trigger] value[i]
    &&& forall|i: int|
        0 <= i < behind.len() ==> text[before.len() + value.len() + i] == #[trigger] behind[i]
}

/// What is said of the voice activity detection model names its path, as it was given.
pub proof fn words_on_the_vad_model(error: Error, r: String)
    requires
        call_ensures(Error::message, (&error,), r),
    ensures
        error matches Error::VadModelPathMissing ==> r@ == "VAD model path must be provided"@,
        error matches Error::VadModelNotFound(path) ==> stands_between(
            r@,
            "VAD model not found at '"@,
            path@,
            "'"@,
        ),
        error matches Error::VadModelNotAFile(path) ==> stands_between(
            r@,
            "VAD model path is not a file: '"@,
            path@,
            "'"@,
        ),
{
}

/// What is said of a model names its path, and its key where that is taken, as they were given.
pub proof fn words_on_a_model(error: Error, r: String)
    requires
        call_ensures(Error::message, (&error,), r),
    ensures
        error matches Error::ModelPathMissing ==> r@ == "model path must be provided"@,
        error matches Error::ModelPathWithoutFileName(path) ==> stands_between(
            r@,
            "model path '"@,
            path@,
            "' does not have a filename"@,
        ),
        error matches Error::ModelFileNameNotUnicode(path) ==> stands_between(
            r@,
            "model filename for path '"@,
            path@,
            "' is not valid UTF-8"@,
        ),
        error matches Error::ModelFileNameEmpty(path) ==> stands_between(
            r@,
            "model filename for path '"@,
            path@,
            "' is empty"@,
        ),
        error matches Error::DuplicateModelKey(key, path) ==> stands_between(
            r@,
            "duplicate model key '"@,
            key@,
            "' derived from path '"@ + path@ + "'"@,
        ),
        error matches Error::NoModels ==> r@ == "at least one whisper model must be provided"@,
        error matches Error::UnknownModelKey(key, keys) ==> stands_between(
            r@,
            "unknown model key '"@,
            key@,
            "' (available: "@ + keys@ + ")"@,
        ),
{
}

/// What is said of a segment names the number at fault, in digits.
pub proof fn words_on_a_segment(error: Error, r: String)
    requires
        call_ensures(Error::message, (&error,), r),
    ensures
        error matches Error::NegativeEndTimestamp(cs) ==> stands_between(
            r@,
            "whisper returned negative end timestamp: "@,
            decimal(cs as int),
            Seq::empty(),
        ),
        error matches Error::EndTimestampTooLarge ==> r@
            == "whisper end timestamp did not fit in usize"@,
        error matches Error::MissingSegment(index) ==> stands_between(
            r@,
            "whisper segment "@,
            decimal(index as int),
            " was missing"@,
        ),
{
}

/// What is said of the media and of the request names the file, or the name that was asked for; the
/// words of what failed outside of the library are handed on.
pub proof fn words_on_the_media(error: Error, r: String)
    requires
        call_ensures(Error::message, (&error,), r),
    ensures
        error matches Error::Outside(words) ==> r@ == words@,
        error matches Error::ChannelDisconnected ==> r@ == "decoder output channel disconnected"@,
        error matches Error::UnknownOutputType(name) ==> stands_between(
            r@,
            "unknown output type '"@,
            name@,
            "' (expected 'json' or 'vtt')"@,
        ),
        error matches Error::InputNotOpened(path) ==> stands_between(
            r@,
            "failed to open input file: "@,
            path@,
            Seq::empty(),
        ),
        error matches Error::ProbeFailed ==> r@ == "failed to probe media stream"@,
        error matches Error::NoAudioTrack ==> r@ == "no audio track found"@,
{
}

/// The options of a transcription carry what the command line asks for. The default model is used,
/// with windows of at least one second.
pub proof fn options_carry_the_parameters(params: Params, opts: Opts)
    requires
        call_ensures(Params::opts, (&params,), opts),
    ensures
        opts.enable_translate_to_english <==> params.enable_translation_to_english,
        opts.enable_voice_activity_detection <==> params.enable_voice_activity_detection,
        same_optional_text(opts.language, params.language),
        opts.output_type == params.output_type,
        opts.model_key is None,
        opts.incremental_min_window_seconds == 1,
        !opts.emit_single_segments,
        call_requires(Params::opts, (&params,)),
{
}

/// The media comes from the standard input exactly if the path is a single hyphen, and a file that
/// could not be opened is named.
pub proof fn hyphen_is_the_standard_input(path: &str, input: Input, error: Error)
    requires
        call_ensures(input_at, (path,), input),
        call_ensures(input_not_opened, (path,), error),
    ensures
        input == Input::Stdin <==> path@.len() == 1 && path@[0] == '-',
        input == Input::File <==> !(path@.len() == 1 && path@[0] == '-'),
        error matches Error::InputNotOpened(named) && named@ == path@,
        call_requires(input_at, (path,)),
{
    reveal_strlit("-");
    if path@.len() == 1 && path@[0] == '-' {
        assert(path@ =~= "-"@);
    }
}

} // verus!
