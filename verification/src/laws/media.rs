//! Laws of recognition: whatever can be probed is answered by what the prober finds in it, and of
//! that the first track with audio is taken.
use vstd::prelude::*;

use crate::app_error::{AppError, Status};
use crate::container::{can_be_probed, probe_returns};
use crate::error::{Error, ErrorView};
use crate::media::{
    check_media, pick_default_track, probe_source_and_pick_default_track, probed_tracks,
    validate_media_prefix, Track, TrackView,
};

verus! {

/// A track can be transcribed: it has a codec, which has another number than zero, and a sample
/// rate.
pub open spec fn has_audio(track: TrackView) -> bool {
    track.codec != "0x0"@ && track.sample_rate is Some
}

/// The track at `i` is the first one that can be transcribed.
pub open spec fn is_first_with_audio(tracks: Seq<TrackView>, i: int) -> bool {
    &&& 0 <= i < tracks.len()
    &&& has_audio(tracks[i])
    &&& forall|j: int| 0 <= j < i ==> !has_audio(#[trigger] tracks[j])
}

/// `r` is what comes of picking a track among those: the first one that can be transcribed, if
/// there is one, and otherwise that there is none.
pub open spec fn is_first_audio_of(tracks: Seq<TrackView>, r: Result<Track, Error>) -> bool {
    match r {
        Ok(track) => exists|i: int|
            {
                &&& #[trigger] is_first_with_audio(tracks, i)
                &&& track.id == tracks[i].id
                &&& track.codec@ == tracks[i].codec
                &&& track.sample_rate == tracks[i].sample_rate
            },
        Err(error) => {
            &&& error@ == ErrorView::NoAudioTrack
            &&& forall|i: int| 0 <= i < tracks.len() ==> !has_audio(#[trigger] tracks[i])
        },
    }
}

proof fn first_audio_is_first(tracks: Seq<TrackView>, start: int)
    requires
        0 <= start <= tracks.len(),
        forall|j: int| 0 <= j < start ==> !has_audio(#[trigger] tracks[j]),
    ensures
        match crate::media::first_audio(tracks, start) {
            Some(i) => is_first_with_audio(tracks, i),
            None => forall|i: int| 0 <= i < tracks.len() ==> !has_audio(#[trigger] tracks[i]),
        },
    decreases tracks.len() - start,
{
    if start < tracks.len() && !has_audio(tracks[start]) {
        first_audio_is_first(tracks, start + 1);
    }
}

/// Of the tracks of a container the first one is picked that has a codec and a sample rate, with
/// its number, its codec and its rate as they are. That there is none is said only where there is
/// none.
pub proof fn first_track_with_audio_is_picked(tracks: Vec<Track>, r: Result<Track, Error>)
    requires
        call_ensures(pick_default_track, (tracks,), r),
    ensures
        is_first_audio_of(tracks@.map_values(|track: Track| track@), r),
        call_requires(pick_default_track, (tracks,)),
{
    first_audio_is_first(tracks@.map_values(|track: Track| track@), 0);
}

/// Whether bytes can be probed is told of any bytes, and told right.
pub proof fn bytes_are_told_apart(source: &[u8], r: bool)
    requires
        call_ensures(can_be_probed, (source,), r),
    ensures
        r <==> probe_returns(source@),
        call_requires(can_be_probed, (source,)),
{
}

/// Bytes on which recognition comes to an end, however many there are, are recognised as the prober
/// finds them through a buffer of 256 KiB: where it finds no container, probing failed; where it
/// finds one, the first track with audio is picked.
pub proof fn probed_bytes_are_recognised_as_found(
    source: &[u8],
    hint: Option<&str>,
    r: Result<Track, Error>,
)
    requires
        call_ensures(probe_source_and_pick_default_track, (source, hint), r),
        probe_returns(source@),
    ensures
        ({
            let hinted = match hint {
                Some(extension) => Some(extension@),
                None => None,
            };
            match probed_tracks(source@, 262_144, hinted) {
                Some(tracks) => is_first_audio_of(tracks, r),
                None => r matches Err(error) && error@ == ErrorView::ProbeFailed,
            }
        }),
        call_requires(probe_source_and_pick_default_track, (source, hint)),
{
    let hinted = match hint {
        Some(extension) => Some(extension@),
        None => None,
    };
    if let Some(tracks) = probed_tracks(source@, 262_144, hinted) {
        first_audio_is_first(tracks, 0);
    }
}

/// Bytes on which recognition would not come to an end are answered like those of no container.
pub proof fn other_bytes_are_not_recognised(
    source: &[u8],
    hint: Option<&str>,
    r: Result<Track, Error>,
)
    requires
        call_ensures(probe_source_and_pick_default_track, (source, hint), r),
        !probe_returns(source@),
    ensures
        r matches Err(error) && error@ == ErrorView::ProbeFailed,
        call_requires(probe_source_and_pick_default_track, (source, hint)),
{
}

/// A request passes exactly if a track was picked from its first bytes. Otherwise it is refused as
/// unsupported media, and the answer says why.
pub proof fn media_without_audio_is_refused(
    picked: Result<Track, Error>,
    message: String,
    r: Result<(), AppError>,
)
    requires
        call_ensures(check_media, (picked,), r),
        picked matches Err(error) ==> call_ensures(Error::message, (&error,), message),
    ensures
        picked is Ok <==> r is Ok,
        r matches Err(refusal) ==> {
            &&& refusal.status == Status::UnsupportedMediaType
            &&& refusal.message@ == "unsupported or unrecognized media container: "@ + message@
        },
        call_requires(check_media, (picked,)),
{
}

/// The first bytes of a request pass exactly if a track can be picked from them without a hint, and
/// are refused as the pick failed.
pub proof fn first_bytes_pass_if_a_track_is_picked(
    prefix: &[u8],
    picked: Result<Track, Error>,
    by_pick: Result<(), AppError>,
    r: Result<(), AppError>,
)
    requires
        call_ensures(validate_media_prefix, (prefix,), r),
        call_ensures(probe_source_and_pick_default_track, (prefix, None), picked),
        call_ensures(check_media, (picked,), by_pick),
    ensures
        r is Ok <==> picked is Ok,
        r matches Err(refusal) ==> (by_pick matches Err(other) && refusal.status == other.status
            && refusal.message@ == other.message@),
        call_requires(validate_media_prefix, (prefix,)),
{
}

} // verus!
