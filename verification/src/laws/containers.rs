//! Laws of looking for a media container: what counts as the marker of one, that the first marker
//! decides, and that neither what comes before it nor how long the media is makes a difference.
use vstd::prelude::*;

use crate::container::id3::tag_returns;
use crate::container::{can_be_probed, marker_at, search_returns, Marker};

verus! {

/// The bytes at `at` are those.
pub open spec fn reads(s: Seq<u8>, at: int, bytes: Seq<u8>) -> bool {
    &&& 0 <= at
    &&& at + bytes.len() <= s.len()
    &&& s.subrange(at, at + bytes.len()) == bytes
}

proof fn four_bytes(s: Seq<u8>, at: int, a: u8, b: u8, c: u8, d: u8)
    requires
        0 <= at,
        at + 4 <= s.len(),
    ensures
        reads(s, at, seq![a, b, c, d]) <==> {
            &&& s[at] == a
            &&& s[at + 1] == b
            &&& s[at + 2] == c
            &&& s[at + 3] == d
        },
{
    let part = s.subrange(at, at + 4);
    assert(part.len() == 4);
    if reads(s, at, seq![a, b, c, d]) {
        assert(part[0] == a && part[1] == b && part[2] == c && part[3] == d);
    }
    if s[at] == a && s[at + 1] == b && s[at + 2] == c && s[at + 3] == d {
        assert(part == seq![a, b, c, d]);
    }
}

/// A container is told by its first bytes: `RIFF` is a WAVE file, `FORM` an AIFF file, `caff` one
/// in the Core Audio Format, `ftyp` the kind of the first atom of an ISO base media file, and
/// `OggS` the first page of an Ogg file; the header of a Matroska file begins with 1A 45 DF A3.
pub proof fn containers_are_told_by_their_first_bytes(s: Seq<u8>, at: int)
    requires
        0 <= at,
        at + 16 <= s.len(),
    ensures
        marker_at(s, at) == Some(Marker::Wave) <==> reads(s, at, seq![0x52, 0x49, 0x46, 0x46]),
        marker_at(s, at) == Some(Marker::Aiff) <==> reads(s, at, seq![0x46, 0x4F, 0x52, 0x4D]),
        marker_at(s, at) == Some(Marker::CoreAudio) <==> reads(
            s,
            at,
            seq![0x63, 0x61, 0x66, 0x66],
        ),
        marker_at(s, at) == Some(Marker::Mp4) <==> reads(s, at, seq![0x66, 0x74, 0x79, 0x70]),
        marker_at(s, at) == Some(Marker::Matroska) <==> reads(s, at, seq![0x1A, 0x45, 0xDF, 0xA3]),
        marker_at(s, at) == Some(Marker::Ogg) <==> reads(s, at, seq![0x4F, 0x67, 0x67, 0x53]),
{
    four_bytes(s, at, 0x52, 0x49, 0x46, 0x46);
    four_bytes(s, at, 0x46, 0x4F, 0x52, 0x4D);
    four_bytes(s, at, 0x63, 0x61, 0x66, 0x66);
    four_bytes(s, at, 0x66, 0x74, 0x79, 0x70);
    four_bytes(s, at, 0x1A, 0x45, 0xDF, 0xA3);
    four_bytes(s, at, 0x4F, 0x67, 0x67, 0x53);
}

/// A tag is told by `ID3`, and audio without a container by `fLaC` or by the 11 ones with which a
/// frame begins, where a version and a layer of MPEG audio that there are follow, or the start of
/// AAC does.
pub proof fn tags_and_frames_are_told_by_their_first_bytes(s: Seq<u8>, at: int)
    requires
        0 <= at,
        at + 16 <= s.len(),
    ensures
        marker_at(s, at) == Some(Marker::Tag) <==> reads(s, at, seq![0x49, 0x44, 0x33]),
        marker_at(s, at) == Some(Marker::Frames) <==> reads(s, at, seq![0x66, 0x4C, 0x61, 0x43])
            || {
            let second = s[at + 1];
            &&& s[at] == 0xFF
            &&& second >= 0xE0
            &&& second % 32 / 8 != 1 && second % 8 / 2 != 0 || second == 0xF1
        },
{
    four_bytes(s, at, 0x66, 0x4C, 0x61, 0x43);
    let part = s.subrange(at, at + 3);
    assert(part.len() == 3);
    if reads(s, at, seq![0x49, 0x44, 0x33]) {
        assert(part[0] == 0x49 && part[1] == 0x44 && part[2] == 0x33);
    }
    if s[at] == 0x49 && s[at + 1] == 0x44 && s[at + 2] == 0x33 {
        assert(part == seq![0x49u8, 0x44, 0x33]);
    }
}

/// Nothing that counts as a marker begins before `end`.
pub open spec fn no_marker_before(s: Seq<u8>, end: int) -> bool {
    forall|at: int| 0 <= at < end ==> #[trigger] marker_at(s, at) is None
}

/// What comes before the first marker makes no difference: the search goes on from the marker.
pub proof fn search_goes_to_the_first_marker(s: Seq<u8>, at: int)
    requires
        0 <= at,
        at + 16 <= s.len(),
        no_marker_before(s, at),
    ensures
        search_returns(s, 0) == search_returns(s, at),
    decreases at,
{
    if at > 0 {
        search_goes_to_the_first_marker(s, at - 1);
        assert(marker_at(s, at - 1) is None);
    }
}

proof fn search_without_a_marker_returns(s: Seq<u8>, at: int)
    requires
        0 <= at,
        no_marker_before(s, s.len() - 15),
    ensures
        search_returns(s, at),
    decreases s.len() - at,
{
    if at + 16 <= s.len() {
        assert(marker_at(s, at) is None);
        search_without_a_marker_returns(s, at + 1);
    }
}

/// Bytes can be probed that hold no marker, however many they are; and fewer than 16 bytes can be,
/// whatever they are.
pub proof fn bytes_without_a_marker_can_be_probed(source: &[u8], r: bool)
    requires
        call_ensures(can_be_probed, (source,), r),
        source@.len() < 16 || no_marker_before(source@, source@.len() - 15),
    ensures
        r,
        call_requires(can_be_probed, (source,)),
{
    if source@.len() >= 16 {
        search_without_a_marker_returns(source@, 0);
    }
}

/// Media whose first marker is that of a FLAC file, or of a frame of MPEG or AAC audio, can be
/// probed, whatever follows and however long it is. A file in the Core Audio Format cannot be.
pub proof fn frames_can_be_probed(source: &[u8], at: int, r: bool)
    requires
        call_ensures(can_be_probed, (source,), r),
        0 <= at,
        at + 16 <= source@.len(),
        no_marker_before(source@, at),
    ensures
        marker_at(source@, at) == Some(Marker::Frames) ==> r,
        marker_at(source@, at) == Some(Marker::CoreAudio) ==> !r,
{
    search_goes_to_the_first_marker(source@, at);
}

/// The length of the tag at `at`: 10 bytes, and as many as four numbers of 7 bits say, the most
/// significant of which comes first.
pub open spec fn len_of_tag(s: Seq<u8>, at: int) -> int {
    10 + 2_097_152 * (s[at + 6] % 128) + 16_384 * (s[at + 7] % 128) + 128 * (s[at + 8] % 128) + s[at
        + 9] % 128
}

/// Behind a tag the search goes on as it would without the tag, and a tag that is cut off ends it.
/// Only a tag of the fourth version with an extended header can be one that is not read.
pub proof fn search_goes_on_behind_a_tag(s: Seq<u8>, at: int)
    requires
        0 <= at,
        at + 16 <= s.len(),
        marker_at(s, at) == Some(Marker::Tag),
        s[at + 3] != 4 || s[at + 5] / 64 % 2 == 0,
    ensures
        at + len_of_tag(s, at) <= s.len() ==> search_returns(s, at) == search_returns(
            s,
            at + len_of_tag(s, at),
        ),
        at + len_of_tag(s, at) > s.len() ==> search_returns(s, at),
{
}

/// Where the restrictions of the tag at `at` stand: behind its extended header, and behind what
/// that says of an update, in one byte, and of a checksum, in six.
pub open spec fn restrictions_of_tag(s: Seq<u8>, at: int) -> int {
    at + 17 + s[at + 15] / 64 % 2 + 6 * (s[at + 15] / 32 % 2)
}

/// A tag of the fourth version with an extended header is read as well if it does not restrict what
/// it holds. If it does, it is read exactly if the second bit of the restrictions is there and
/// clear.
pub proof fn restrictions_of_a_tag_are_read(s: Seq<u8>, at: int)
    requires
        0 <= at,
        at + 16 <= s.len(),
        s[at + 3] == 4,
        s[at + 5] / 64 % 2 == 1,
    ensures
        tag_returns(s, at) <==> {
            ||| s[at + 15] / 16 % 2 == 0
            ||| {
                &&& restrictions_of_tag(s, at) < s.len()
                &&& s[restrictions_of_tag(s, at)] / 64 % 2 == 0
            }
        },
{
}

} // verus!
