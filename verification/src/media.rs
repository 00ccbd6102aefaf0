//! Recognition of media containers from the first bytes of a request.
use std::io::Cursor;
use vstd::arithmetic::power2::{lemma2_to64, pow2};
use vstd::prelude::*;
use vstd::string::*;

use crate::app_error::{AppError, AppErrorView, Status};
use crate::container::{can_be_probed, probe_returns};
use crate::error::{Error, ErrorView};

verus! {

/// Bytes of a media stream that are buffered while its container is recognised.
pub const PROBE_BUFFER_LEN: usize = 256 * 1024;

/// A track of a media container.
#[derive(Debug, PartialEq, Eq)]
pub struct Track {
    /// The number of the track within its container.
    pub id: u32,
    /// The codec, as a hexadecimal number.
    pub codec: String,
    /// Samples per second, where the container says.
    pub sample_rate: Option<u32>,
}

/// A [`Track`] whose strings are sequences of characters.
pub struct TrackView {
    pub id: u32,
    pub codec: Seq<char>,
    pub sample_rate: Option<u32>,
}

impl View for Track {
    type V = TrackView;

    open spec fn view(&self) -> TrackView {
        TrackView { id: self.id, codec: self.codec@, sample_rate: self.sample_rate }
    }
}

/// The tracks of a vector of them.
pub open spec fn tracks_view(tracks: Seq<Track>) -> Seq<TrackView> {
    tracks.map_values(|track: Track| track@)
}

/// The number of the codec that stands for none.
pub open spec fn no_codec() -> Seq<char> {
    "0x0"@
}

/// A track that can be transcribed: its codec and its sample rate are known.
pub open spec fn is_audio(track: TrackView) -> bool {
    track.codec != no_codec() && track.sample_rate is Some
}

/// The tracks that `Probe::format` finds in the container that `source` starts with, read
/// through a buffer of `buffer_len` bytes, or `None` where it recognises no container.
pub uninterp spec fn probed_tracks(
    source: Seq<u8>,
    buffer_len: usize,
    hint_extension: Option<Seq<char>>,
) -> Option<Seq<TrackView>>;

/// What comes of recognising the container that `source` starts with: nothing is recognised where
/// recognition would not come to an end.
pub open spec fn probe_outcome(
    source: Seq<u8>,
    hint_extension: Option<Seq<char>>,
) -> Option<Seq<TrackView>> {
    if probe_returns(source) {
        probed_tracks(source, PROBE_BUFFER_LEN, hint_extension)
    } else {
        None
    }
}

/// The characters of an optional string.
pub open spec fn optional_text(text: Option<&str>) -> Option<Seq<char>> {
    match text {
        None => None,
        Some(text) => Some(text@),
    }
}

/// `Probe::format`, with all formats registered and its default options, on bytes that can be
/// read once and not sought in. What it finds, or that it fails, depends on its arguments
/// alone; the words of its error are dropped. The media source
/// insists on a buffer whose length is a power of two and more than 32 KiB.
///
/// The readers of the formats panic, or do not come to an end, on some headers: a WAVE, AIFF or
/// ISO media file whose rate is zero, a Matroska file whose timestamp scale is zero or does not
/// fit in 32 bits, lengths that do not fit in what surrounds them, and others that
/// [`crate::container`] names. `probe_returns` leaves all of them out.
///
/// Two things are not said. The reader for Vorbis asserts that a root it takes in floating point
/// is right; where the root is not close to a whole number any machine rounds it well, and
/// `probe_returns` leaves out the rest but for whole powers, on which it rests on the machine.
/// And a reader may set memory aside by a length that the bytes do not bear out, before it fails
/// to fill it.
#[verifier::external_body]
fn probe_format(source: &[u8], buffer_len: usize, hint_extension: Option<&str>) -> (r: Option<
    Vec<Track>,
>)
    requires
        buffer_len > 32 * 1024,
        exists|k: nat| buffer_len == #[trigger] pow2(k),
        probe_returns(source@),
    ensures
        probed_tracks(source@, buffer_len, optional_text(hint_extension)) == match r {
            Some(tracks) => Some(tracks_view(tracks@)),
            None => None,
        },
{
    let source = symphonia::core::io::ReadOnlySource::new(Cursor::new(source.to_vec()));
    let options = symphonia::core::io::MediaSourceStreamOptions { buffer_len };
    let stream = symphonia::core::io::MediaSourceStream::new(Box::new(source), options);
    let mut hint = symphonia::core::probe::Hint::new();
    if let Some(extension) = hint_extension {
        hint.with_extension(extension);
    }
    let probe = symphonia::default::get_probe();
    let probed = probe.format(&hint, stream, &Default::default(), &Default::default()).ok()?;
    let tracks = probed.format.tracks().iter();
    Some(tracks.map(|t| Track {
        id: t.id,
        codec: t.codec_params.codec.to_string(),
        sample_rate: t.codec_params.sample_rate,
    }).collect())
}

/// `CODEC_TYPE_NULL` in the notation of `CodecType`, which is the hexadecimal number of the
/// codec: zero.
#[verifier::external_body]
fn null_codec() -> (r: String)
    ensures
        r@ == no_codec(),
{
    symphonia::core::codecs::CODEC_TYPE_NULL.to_string()
}

/// The place of the first track that can be transcribed, from `start` on.
pub open spec fn first_audio(tracks: Seq<TrackView>, start: int) -> Option<int>
    decreases tracks.len() - start,
{
    if start < 0 || start >= tracks.len() {
        None
    } else if is_audio(tracks[start]) {
        Some(start)
    } else {
        first_audio(tracks, start + 1)
    }
}

/// The track of a container that is transcribed: the first one that can be, given the tracks
/// that were found, if a container was.
pub open spec fn default_track(probed: Option<Seq<TrackView>>) -> Result<TrackView, ErrorView> {
    match probed {
        None => Err(ErrorView::ProbeFailed),
        Some(tracks) => match first_audio(tracks, 0) {
            None => Err(ErrorView::NoAudioTrack),
            Some(i) => Ok(tracks[i]),
        },
    }
}

/// A result in which the strings are sequences of characters.
pub open spec fn track_result(r: Result<Track, Error>) -> Result<TrackView, ErrorView> {
    match r {
        Ok(track) => Ok(track@),
        Err(error) => Err(error@),
    }
}

/// Picks the track of a container that is transcribed.
pub fn pick_default_track(tracks: Vec<Track>) -> (r: Result<Track, Error>)
    ensures
        track_result(r) == default_track(Some(tracks_view(tracks@))),
{
    let none = null_codec();
    let ghost all = tracks_view(tracks@);
    for i in 0..tracks.len()
        invariant
            none@ == no_codec(),
            all == tracks_view(tracks@),
            first_audio(all, 0) == first_audio(all, i as int),
    {
        let track = &tracks[i];
        if track.codec != none && track.sample_rate.is_some() {
            return Ok(
                Track { id: track.id, codec: track.codec.clone(), sample_rate: track.sample_rate },
            );
        }
    }
    Err(Error::NoAudioTrack)
}

/// Recognises the container that `source` starts with and picks the track that is transcribed.
/// Headers on which recognition would not come to an end are refused like those of no container.
pub fn probe_source_and_pick_default_track(source: &[u8], hint_extension: Option<&str>) -> (r:
    Result<Track, Error>)
    ensures
        track_result(r) == default_track(probe_outcome(source@, optional_text(hint_extension))),
{
    if !can_be_probed(source) {
        return Err(Error::ProbeFailed);
    }
    proof {
        lemma2_to64();
        assert(PROBE_BUFFER_LEN == pow2(18));
    }
    match probe_format(source, PROBE_BUFFER_LEN, hint_extension) {
        Some(tracks) => pick_default_track(tracks),
        None => Err(Error::ProbeFailed),
    }
}

/// Why a request that starts with bytes of that outcome is refused, if it is.
pub open spec fn media_refusal(picked: Result<TrackView, ErrorView>) -> Option<AppErrorView> {
    match picked {
        Ok(_) => None,
        Err(error) => Some(
            AppErrorView {
                status: Status::UnsupportedMediaType,
                message: "unsupported or unrecognized media container: "@ + error.message(),
            },
        ),
    }
}

/// Answers a request by what came of picking a track from its first bytes.
pub fn check_media(picked: Result<Track, Error>) -> (r: Result<(), AppError>)
    ensures
        match r {
            Ok(()) => media_refusal(track_result(picked)) is None,
            Err(error) => media_refusal(track_result(picked)) == Some(error@),
        },
{
    match picked {
        Ok(_) => Ok(()),
        Err(error) => {
            let mut message = "unsupported or unrecognized media container: ".to_owned();
            message.append(error.message().as_str());
            Err(AppError::unsupported_media(message))
        },
    }
}

/// Refuses a request whose first bytes, `prefix`, are not those of a media container with audio.
pub fn validate_media_prefix(prefix: &[u8]) -> (r: Result<(), AppError>)
    ensures
        ({
            let picked = default_track(probe_outcome(prefix@, None));
            match r {
                Ok(()) => media_refusal(picked) is None,
                Err(error) => media_refusal(picked) == Some(error@),
            }
        }),
{
    check_media(probe_source_and_pick_default_track(prefix, None))
}

} // verus!
