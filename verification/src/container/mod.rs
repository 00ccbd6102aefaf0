//! Media containers on which recognition comes to an end.
//!
//! A recogniser looks for the marker of a container and then reads its headers. It trusts some
//! of the numbers in them: on a sample rate of zero, say, or a length that is shorter than what
//! it has to hold, it does not come back with an answer. The modules here follow the same headers
//! and say on which bytes it does come back. Headers that it can only fail on, and a few that no
//! encoder writes, are not told apart from the ones on which it does not.
use vstd::prelude::*;

use crate::container::bytes::{has_tag, tag_at};
use crate::container::id3::{check_tag, has_id3, is_tag, read_tag_end, tag_end, tag_returns};
use crate::container::matroska::{check_matroska, matroska_returns};
use crate::container::mp4::{atoms_return, check_atoms, Atoms};
use crate::container::ogg::{check_ogg, ogg_returns};
use crate::container::riff::{check_riff, riff_returns};

pub mod bytes;
pub mod id3;
pub mod matroska;
pub mod mp4;
pub mod ogg;
pub mod riff;
pub mod vorbis;

verus! {

/// What the bytes at some place are the marker of.
#[derive(Debug, Clone, Copy, PartialEq, Eq, Structural)]
pub enum Marker {
    /// A tag, behind which a container may follow.
    Tag,
    /// A WAVE file.
    Wave,
    /// An AIFF file.
    Aiff,
    /// A file in the Core Audio Format.
    CoreAudio,
    /// An ISO base media file: the marker is the kind of its first atom, whose length precedes it.
    Mp4,
    /// A Matroska file.
    Matroska,
    /// An Ogg file.
    Ogg,
    /// A FLAC file, or a frame of MPEG or AAC audio.
    Frames,
}

/// The two bytes at `at` begin a frame of MPEG or AAC audio.
pub open spec fn is_frame(s: Seq<u8>, at: int) -> bool {
    &&& s[at] == 0xFF
    &&& 0xE2 <= s[at + 1] <= 0xE7 || 0xF1 <= s[at + 1] <= 0xF7 || 0xFA <= s[at + 1]
}

/// What the bytes at `at` are the marker of, if they are one.
pub open spec fn marker_at(s: Seq<u8>, at: int) -> Option<Marker> {
    if is_tag(s, at) {
        Some(Marker::Tag)
    } else if tag_at(s, at, 0x52, 0x49, 0x46, 0x46) {
        Some(Marker::Wave)
    } else if tag_at(s, at, 0x46, 0x4F, 0x52, 0x4D) {
        Some(Marker::Aiff)
    } else if tag_at(s, at, 0x63, 0x61, 0x66, 0x66) {
        Some(Marker::CoreAudio)
    } else if tag_at(s, at, 0x66, 0x74, 0x79, 0x70) {
        Some(Marker::Mp4)
    } else if tag_at(s, at, 0x1A, 0x45, 0xDF, 0xA3) {
        Some(Marker::Matroska)
    } else if tag_at(s, at, 0x4F, 0x67, 0x67, 0x53) {
        Some(Marker::Ogg)
    } else if tag_at(s, at, 0x66, 0x4C, 0x61, 0x43) || is_frame(s, at) {
        Some(Marker::Frames)
    } else {
        None
    }
}

/// Recognition comes to an end that looks for a marker from `at` on. A marker counts where 16
/// bytes are left to look at; behind a tag the search goes on.
///
/// A file in the Core Audio Format can be recognised only from a source of known length, so it is
/// counted with those on which recognition does not come to an end.
pub open spec fn search_returns(s: Seq<u8>, at: int) -> bool
    decreases s.len() - at,
{
    if at < 0 || at + 16 > s.len() {
        true
    } else {
        match marker_at(s, at) {
            None => search_returns(s, at + 1),
            Some(Marker::Tag) => {
                &&& tag_returns(s, at)
                &&& at < tag_end(s, at) <= s.len() ==> search_returns(s, tag_end(s, at))
            },
            Some(Marker::Wave) => riff_returns(s, at, true),
            Some(Marker::Aiff) => riff_returns(s, at, false),
            Some(Marker::CoreAudio) => false,
            Some(Marker::Mp4) => atoms_return(
                Atoms::File,
                s,
                if at < 4 {
                    0
                } else {
                    at - 4
                },
                s.len() as int,
            ),
            Some(Marker::Matroska) => matroska_returns(s, at),
            Some(Marker::Ogg) => ogg_returns(s, at),
            Some(Marker::Frames) => true,
        }
    }
}

/// Recognition of the container that `source` holds comes to an end.
pub open spec fn probe_returns(source: Seq<u8>) -> bool {
    search_returns(source, 0)
}

/// What the bytes at `at` are the marker of, if they are one.
fn read_marker(s: &[u8], at: usize) -> (r: Option<Marker>)
    requires
        at + 16 <= s.len(),
    ensures
        r == marker_at(s@, at as int),
{
    if has_id3(s, at) {
        return Some(Marker::Tag);
    }
    if has_tag(s, at, 0x52, 0x49, 0x46, 0x46) {
        return Some(Marker::Wave);
    }
    if has_tag(s, at, 0x46, 0x4F, 0x52, 0x4D) {
        return Some(Marker::Aiff);
    }
    if has_tag(s, at, 0x63, 0x61, 0x66, 0x66) {
        return Some(Marker::CoreAudio);
    }
    if has_tag(s, at, 0x66, 0x74, 0x79, 0x70) {
        return Some(Marker::Mp4);
    }
    if has_tag(s, at, 0x1A, 0x45, 0xDF, 0xA3) {
        return Some(Marker::Matroska);
    }
    if has_tag(s, at, 0x4F, 0x67, 0x67, 0x53) {
        return Some(Marker::Ogg);
    }
    let second: u8 = s[at + 1];
    let audio: bool = (0xE2 <= second && second <= 0xE7) || (0xF1 <= second && second <= 0xF7)
        || 0xFA <= second;
    if has_tag(s, at, 0x66, 0x4C, 0x61, 0x43) || (s[at] == 0xFF && audio) {
        return Some(Marker::Frames);
    }
    None
}

/// Whether recognition of the container that `source` holds comes to an end.
pub fn can_be_probed(source: &[u8]) -> (r: bool)
    ensures
        r == probe_returns(source@),
{
    let mut at: usize = 0;
    loop
        invariant
            at <= source.len(),
            probe_returns(source@) == search_returns(source@, at as int),
        decreases source.len() - at,
    {
        if source.len() - at < 16 {
            return true;
        }
        match read_marker(source, at) {
            None => {
                at = at + 1;
            },
            Some(Marker::Tag) => {
                if !check_tag(source, at) {
                    return false;
                }
                at = match read_tag_end(source, at) {
                    Some(end) => end,
                    None => {
                        return true;
                    },
                };
            },
            Some(Marker::Wave) => {
                return check_riff(source, at, true);
            },
            Some(Marker::Aiff) => {
                return check_riff(source, at, false);
            },
            Some(Marker::CoreAudio) => {
                return false;
            },
            Some(Marker::Mp4) => {
                let start: usize = if at < 4 {
                    0
                } else {
                    at - 4
                };
                return check_atoms(Atoms::File, source, start, source.len());
            },
            Some(Marker::Matroska) => {
                return check_matroska(source, at);
            },
            Some(Marker::Ogg) => {
                return check_ogg(source, at);
            },
            Some(Marker::Frames) => {
                return true;
            },
        }
    }
}

} // verus!
