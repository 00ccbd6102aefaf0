//! Laws of the operations that answer a request: which output format it asks for, with which
//! options it is served, what is looked at of its body, and how it is refused.
use vstd::prelude::*;

use crate::app_error::{AppError, Status};
use crate::error::{Error, ErrorView};
use crate::media::{probe_source_and_pick_default_track, Track};
use crate::opts::Opts;
use crate::output_type::{parse_output_type, OutputType};
use crate::prefix::{Prefix, PrefixProbe, MAX_PROBE_BYTES};
use crate::server::{answer_request, query_opts, transcribe, TranscribeQuery};
use crate::text::{ascii_lowercase, trimmed};

verus! {

/// Where no output format is asked for it is WebVTT.
pub proof fn output_is_vtt_by_default(r: Result<OutputType, Error>)
    requires
        call_ensures(parse_output_type, (None,), r),
    ensures
        r == Ok::<OutputType, Error>(OutputType::Vtt),
        call_requires(parse_output_type, (None,)),
{
}

/// An output format goes by the name `json` or `vtt`, in any case and between white space, and by
/// no other: another name is an error that repeats it without the white space and in lower case.
pub proof fn output_goes_by_two_names(raw: &str, r: Result<OutputType, Error>)
    requires
        call_ensures(parse_output_type, (Some(raw),), r),
    ensures
        ({
            let name = ascii_lowercase(trimmed(raw@));
            &&& name == "json"@ <==> r == Ok::<OutputType, Error>(OutputType::Json)
            &&& name == "vtt"@ <==> r == Ok::<OutputType, Error>(OutputType::Vtt)
            &&& r matches Err(error) ==> error@ == ErrorView::UnknownOutputType(name)
        }),
        call_requires(parse_output_type, (Some(raw),)),
{
    reveal_strlit("json");
    reveal_strlit("vtt");
    assert("json"@.len() == 4);
    assert("vtt"@.len() == 3);
}

/// A response is announced in the media type of its format.
pub proof fn formats_have_their_media_types(output_type: OutputType, r: &'static str)
    requires
        call_ensures(OutputType::content_type, (&output_type,), r),
    ensures
        output_type == OutputType::Json ==> r@ == "application/json; charset=utf-8"@,
        output_type == OutputType::Vtt ==> r@ == "text/vtt; charset=utf-8"@,
        call_requires(OutputType::content_type, (&output_type,)),
{
}

/// A faulty request is answered with 400, media that cannot be transcribed with 415.
pub proof fn statuses_have_their_numbers(status: Status, r: u16)
    requires
        call_ensures(Status::code, (&status,), r),
    ensures
        status == Status::BadRequest ==> r == 400,
        status == Status::UnsupportedMediaType ==> r == 415,
        call_requires(Status::code, (&status,)),
{
}

/// A refusal carries the words it was given.
pub proof fn refusals_carry_their_words(message: String, bad: AppError, unsupported: AppError)
    requires
        call_ensures(AppError::bad_request, (message,), bad),
        call_ensures(AppError::unsupported_media, (message,), unsupported),
    ensures
        bad.status == Status::BadRequest,
        unsupported.status == Status::UnsupportedMediaType,
        bad.message@ == message@,
        unsupported.message@ == message@,
{
}

/// Two optional texts hold the same characters, or neither is there.
pub open spec fn same_optional_text(a: Option<String>, b: Option<String>) -> bool {
    match (a, b) {
        (Some(a), Some(b)) => a@ == b@,
        (None, None) => true,
        _ => false,
    }
}

/// A query that is accepted is served as it asks: speech is translated, and voice activity
/// detected, exactly where it says so, and the model key and the language hint are its own. Windows
/// are of at least one second, and a single segment is held back.
pub proof fn options_carry_the_query(query: TranscribeQuery, r: Result<Opts, AppError>)
    requires
        call_ensures(query_opts, (query,), r),
    ensures
        r matches Ok(opts) ==> {
            &&& opts.enable_translate_to_english <==> query.translate_to_english == Some(true)
            &&& opts.enable_voice_activity_detection <==> query.enable_vad == Some(true)
            &&& same_optional_text(opts.model_key, query.model_key)
            &&& same_optional_text(opts.language, query.language)
            &&& opts.incremental_min_window_seconds == 1
            &&& !opts.emit_single_segments
        },
        call_requires(query_opts, (query,)),
{
}

/// A query without an output format is accepted, whatever else it asks for, and served in WebVTT.
pub proof fn query_without_output_is_accepted(query: TranscribeQuery, r: Result<Opts, AppError>)
    requires
        call_ensures(query_opts, (query,), r),
        query.output is None,
    ensures
        r matches Ok(opts) && opts.output_type == OutputType::Vtt,
{
}

/// A query with an output format is accepted exactly if there is such a format, whatever else it
/// asks for, and served in it. Otherwise the request is faulty, and the answer says why.
pub proof fn query_is_accepted_by_its_output(
    query: TranscribeQuery,
    raw: &str,
    parsed: Result<OutputType, Error>,
    message: String,
    r: Result<Opts, AppError>,
)
    requires
        call_ensures(query_opts, (query,), r),
        query.output matches Some(output) && output@ == raw@,
        call_ensures(parse_output_type, (Some(raw),), parsed),
        parsed matches Err(error) ==> call_ensures(Error::message, (&error,), message),
    ensures
        match parsed {
            Ok(output_type) => r matches Ok(opts) && opts.output_type == output_type,
            Err(_) => r matches Err(refusal) && refusal.status == Status::BadRequest
                && refusal.message@ == message@,
        },
{
}

/// Two answers are the same: the same options, or the same refusal.
pub open spec fn same_answer(a: Result<Opts, AppError>, b: Result<Opts, AppError>) -> bool {
    match (a, b) {
        (Ok(a), Ok(b)) => {
            &&& same_optional_text(a.model_key, b.model_key)
            &&& a.enable_translate_to_english == b.enable_translate_to_english
            &&& a.enable_voice_activity_detection == b.enable_voice_activity_detection
            &&& same_optional_text(a.language, b.language)
            &&& a.output_type == b.output_type
            &&& a.incremental_min_window_seconds == b.incremental_min_window_seconds
            &&& a.emit_single_segments == b.emit_single_segments
        },
        (Err(a), Err(b)) => a.status == b.status && a.message@ == b.message@,
        _ => false,
    }
}

/// A request whose media was recognised is answered by its query alone, whichever track was picked.
pub proof fn recognised_media_is_answered_by_the_query(
    track: Track,
    query: TranscribeQuery,
    by_query: Result<Opts, AppError>,
    r: Result<Opts, AppError>,
)
    requires
        call_ensures(answer_request, (Ok(track), query), r),
        call_ensures(query_opts, (query,), by_query),
    ensures
        same_answer(r, by_query),
{
}

/// A request whose media was not recognised is refused as unsupported, whatever its query asks for,
/// and the answer says why.
pub proof fn unrecognised_media_is_answered_with_415(
    error: Error,
    query: TranscribeQuery,
    message: String,
    r: Result<Opts, AppError>,
)
    requires
        call_ensures(answer_request, (Err(error), query), r),
        call_ensures(Error::message, (&error,), message),
    ensures
        r matches Err(refusal) && refusal.status == Status::UnsupportedMediaType
            && refusal.message@ == "unsupported or unrecognized media container: "@ + message@,
        call_requires(answer_request, (Err(error), query)),
{
}

/// A request is answered by the track that can be picked from its first bytes, without a hint, and
/// by its query: the same options, or the same refusal.
pub proof fn request_is_answered_by_its_first_bytes(
    prefix: &[u8],
    query: TranscribeQuery,
    picked: Result<Track, Error>,
    by_pick: Result<Opts, AppError>,
    r: Result<Opts, AppError>,
)
    requires
        call_ensures(transcribe, (prefix, query), r),
        call_ensures(probe_source_and_pick_default_track, (prefix, None), picked),
        call_ensures(answer_request, (picked, query), by_pick),
    ensures
        same_answer(r, by_pick),
        call_requires(transcribe, (prefix, query)),
{
}

/// The look at a body starts with nothing, and up to 512 KiB of it are looked at.
pub proof fn look_starts_with_nothing(limit: usize, probe: PrefixProbe)
    requires
        call_ensures(PrefixProbe::new, (limit,), probe),
    ensures
        probe.inv(),
        probe@.limit == limit,
        probe@.chunks.len() == 0,
        probe@.tail is None,
        MAX_PROBE_BYTES == 524_288,
        call_requires(PrefixProbe::new, (limit,)),
{
}

/// The number of bytes in chunks.
pub open spec fn bytes_in(chunks: Seq<Seq<u8>>) -> int
    decreases chunks.len(),
{
    if chunks.len() == 0 {
        0
    } else {
        bytes_in(chunks.drop_last()) + chunks.last().len()
    }
}

proof fn concat_has_all_bytes(chunks: Seq<Seq<u8>>)
    ensures
        crate::prefix::concat(chunks).len() == bytes_in(chunks),
    decreases chunks.len(),
{
    if chunks.len() > 0 {
        concat_has_all_bytes(chunks.drop_last());
    }
}

/// Another chunk is fetched exactly while fewer bytes were taken than may be looked at.
pub proof fn chunks_are_fetched_up_to_the_limit(probe: PrefixProbe, r: bool)
    requires
        call_ensures(PrefixProbe::wants_more, (&probe,), r),
    ensures
        r <==> bytes_in(probe@.chunks) < probe@.limit,
        probe.inv() ==> call_requires(PrefixProbe::wants_more, (&probe,)),
{
    concat_has_all_bytes(probe@.chunks);
}

/// A chunk that fits is taken whole, an empty one leaves no trace, and one that does not fit is
/// cut: what fits is taken, the rest is put back in front of the body. What was taken before stays.
pub proof fn chunks_are_cut_at_the_limit(chunk: Vec<u8>, done: ())
    ensures
        forall|probe: &mut PrefixProbe|
            #[trigger] call_ensures(PrefixProbe::push, (probe, chunk), done) ==> {
                let before = probe@;
                let now = (*final(probe))@;
                let room = before.limit - bytes_in(before.chunks);
                &&& (*final(probe)).inv()
                &&& now.limit == before.limit
                &&& chunk@.len() == 0 ==> now.chunks == before.chunks && now.tail == before.tail
                &&& 0 < chunk@.len() <= room ==> {
                    &&& now.chunks == before.chunks.push(chunk@)
                    &&& now.tail == before.tail
                }
                &&& 0 <= room < chunk@.len() ==> {
                    &&& now.chunks.len() == before.chunks.len() + 1
                    &&& now.chunks.drop_last() == before.chunks
                    &&& now.chunks.last().len() == room
                    &&& now.tail matches Some(tail) && now.chunks.last() + tail == chunk@
                }
            },
        forall|probe: &mut PrefixProbe|
            probe.inv() && bytes_in(probe@.chunks) < probe@.limit ==> #[trigger] call_requires(
                PrefixProbe::push,
                (probe, chunk),
            ),
{
    assert forall|probe: &mut PrefixProbe|
        #[trigger] call_ensures(PrefixProbe::push, (probe, chunk), done) implies {
        let before = probe@;
        let now = (*final(probe))@;
        let room = before.limit - bytes_in(before.chunks);
        &&& 0 < chunk@.len() <= room ==> {
            &&& now.chunks == before.chunks.push(chunk@)
            &&& now.tail == before.tail
        }
        &&& 0 <= room < chunk@.len() ==> {
            &&& now.chunks.len() == before.chunks.len() + 1
            &&& now.chunks.drop_last() == before.chunks
            &&& now.chunks.last().len() == room
            &&& now.tail matches Some(tail) && now.chunks.last() + tail == chunk@
        }
    } by {
        let before = probe@;
        let now = (*final(probe))@;
        let room = before.limit - bytes_in(before.chunks);
        concat_has_all_bytes(before.chunks);
        if 0 <= room < chunk@.len() {
            assert(now.chunks.drop_last() == before.chunks);
            assert(chunk@.take(room) + chunk@.skip(room) == chunk@);
        }
    }
    assert forall|probe: &mut PrefixProbe|
        probe.inv() && bytes_in(probe@.chunks) < probe@.limit implies #[trigger] call_requires(
        PrefixProbe::push,
        (probe, chunk),
    ) by {
        concat_has_all_bytes(probe@.chunks);
    }
}

/// A body without any byte is refused as a faulty request, and no other: of any other body what was
/// taken is looked at and replayed, chunk by chunk.
pub proof fn only_empty_bodies_are_refused(probe: PrefixProbe, r: Result<Prefix, AppError>)
    requires
        call_ensures(PrefixProbe::finish, (probe,), r),
    ensures
        bytes_in(probe@.chunks) > 0 <==> r is Ok,
        r matches Err(refusal) ==> {
            &&& refusal.status == Status::BadRequest
            &&& refusal.message@ == "request body was empty"@
        },
        r matches Ok(prefix) ==> {
            &&& prefix.bytes@.len() == bytes_in(probe@.chunks)
            &&& prefix.bytes@ == crate::prefix::concat(probe@.chunks)
            &&& prefix.chunks@.len() == probe@.chunks.len()
            &&& forall|i: int|
                0 <= i < prefix.chunks@.len() ==> #[trigger] prefix.chunks@[i]@ == probe@.chunks[i]
            &&& match prefix.tail {
                Some(tail) => probe@.tail == Some(tail@),
                None => probe@.tail is None,
            }
        },
        probe.inv() ==> call_requires(PrefixProbe::finish, (probe,)),
{
    concat_has_all_bytes(probe@.chunks);
    if let Ok(prefix) = r {
        let views = crate::prefix::chunks_view(prefix.chunks@);
        assert forall|i: int| 0 <= i < prefix.chunks@.len() implies #[trigger] prefix.chunks@[i]@
            == probe@.chunks[i] by {
            assert(views[i] == prefix.chunks@[i]@);
        }
    }
}

} // verus!
