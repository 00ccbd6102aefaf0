//! Laws of Matroska and WebM files: how elements are told apart and passed over, and that a file is
//! read up to its first audio, whatever follows.
use vstd::arithmetic::power2::{lemma2_to64, pow2};
use vstd::prelude::*;

use crate::container::bytes::{number, number_from};
use crate::container::can_be_probed;
use crate::container::matroska::{
    content_end, content_returns, content_start, element_fits, element_id, elements_end,
    elements_in, header_fits, id_len, is_part, is_read, next_part, segment_returns, size_bits,
    size_len, Elements,
};
use crate::laws::chunks::numbers_are_made_of_bytes;
use crate::laws::containers::{
    containers_are_told_by_their_first_bytes, no_marker_before, reads,
    search_goes_to_the_first_marker,
};

verus! {

/// A length has as many bytes as there are zeros before the first one of its first byte, and one
/// more; what follows that one belongs to its value. Only a byte of zero begins none.
pub proof fn lengths_are_told_by_their_first_byte(first: u8)
    ensures
        0 <= size_len(first) <= 8,
        size_len(first) == 0 <==> first == 0,
        first > 0 ==> pow2((8 - size_len(first)) as nat) <= first < 2 * pow2(
            (8 - size_len(first)) as nat,
        ),
        first > 0 ==> size_bits(first) == first - pow2((8 - size_len(first)) as nat),
{
    lemma2_to64();
}

/// An identifier has as many bytes as a length that begins with the same byte, and at most four.
pub proof fn identifiers_are_told_by_their_first_byte(first: u8)
    ensures
        id_len(first) == if size_len(first) <= 4 {
            size_len(first)
        } else {
            0
        },
{
}

/// The header of the element at `at` is an identifier of the given number of bytes and a length of
/// one byte that says how many bytes follow.
pub open spec fn has_short_header(s: Seq<u8>, at: int, id_bytes: int, len: int) -> bool {
    &&& 0 <= at
    &&& id_len(s[at]) == id_bytes
    &&& at + id_bytes < s.len()
    &&& 0 <= len < 127
    &&& s[at + id_bytes] == 128 + len
}

proof fn short_headers_are_read(s: Seq<u8>, at: int, id_bytes: int, len: int)
    requires
        id_bytes > 0,
        has_short_header(s, at, id_bytes, len),
    ensures
        content_start(s, at) == at + id_bytes + 1,
        content_end(s, at) == at + id_bytes + 1 + len,
        header_fits(s, at, s.len() as int),
        element_fits(s, at, s.len() as int) <==> at + id_bytes + 1 + len <= s.len(),
{
    assert(number_from(len, s, at + id_bytes + 1, 0) == len);
}

/// An element ends as many bytes behind its header as a length of one byte says.
pub proof fn element_ends_where_its_length_says(s: Seq<u8>, at: int, id_bytes: int, len: int)
    requires
        id_bytes > 0,
        has_short_header(s, at, id_bytes, len),
    ensures
        content_start(s, at) == at + id_bytes + 1,
        content_end(s, at) == content_start(s, at) + len,
{
    short_headers_are_read(s, at, id_bytes, len);
}

/// A Matroska file can be probed that says what it is and goes on with audio at once, whatever
/// follows and however long it is. What comes before it makes no difference.
pub proof fn matroska_is_read_up_to_the_audio(source: &[u8], at: int, len: int, r: bool)
    requires
        call_ensures(can_be_probed, (source,), r),
        0 <= at,
        no_marker_before(source@, at),
        reads(source@, at, seq![0x1A, 0x45, 0xDF, 0xA3]),
        4 <= len < 127,
        source@[at + 4] == 128 + len,
        source@[at + 5] == 0x42 && source@[at + 6] == 0x82,
        source@[at + 7] == 128 + len - 3,
        at + len + 16 <= source@.len(),
        reads(source@, at + 5 + len, seq![0x18, 0x53, 0x80, 0x67]),
        source@[at + len + 9] == 0xFF,
        reads(source@, at + len + 10, seq![0x1F, 0x43, 0xB6, 0x75]),
        source@[at + len + 14] >= 128,
    ensures
        r,
{
    let s = source@;
    search_goes_to_the_first_marker(s, at);
    containers_are_told_by_their_first_bytes(s, at);
    let mark = s.subrange(at, at + 4);
    assert(mark[0] == 0x1A);
    short_headers_are_read(s, at, 4, len);
    short_headers_are_read(s, at + 5, 2, len - 3);
    numbers_are_made_of_bytes(s, at + 5);
    let segment = at + 5 + len;
    assert(element_id(s, at + 5) == 0x4282);
    assert(elements_end(Elements::Ebml, s, segment, segment) == Some(segment));
    assert(elements_end(Elements::Ebml, s, at + 5, segment) == Some(segment));
    let mark = s.subrange(segment, segment + 4);
    assert(mark[0] == 0x18 && mark[1] == 0x53 && mark[2] == 0x80 && mark[3] == 0x67);
    let cluster = segment + 5;
    let mark = s.subrange(cluster, cluster + 4);
    assert(mark[0] == 0x1F && mark[1] == 0x43 && mark[2] == 0xB6 && mark[3] == 0x75);
    numbers_are_made_of_bytes(s, cluster);
    assert(element_id(s, cluster) == 0x1F43B675);
    assert(segment_returns(s, cluster));
}

/// The segment is read up to the first audio: nothing that follows makes a difference.
pub proof fn audio_ends_the_reading(s: Seq<u8>, at: int)
    requires
        0 <= at,
        at + 5 <= s.len(),
        reads(s, at, seq![0x1F, 0x43, 0xB6, 0x75]),
        s[at + 4] > 0,
    ensures
        segment_returns(s, at),
{
    let mark = s.subrange(at, at + 4);
    assert(mark[0] == 0x1F && mark[1] == 0x43 && mark[2] == 0xB6 && mark[3] == 0x75);
    numbers_are_made_of_bytes(s, at);
}

/// Where the bytes end, reading ends.
pub proof fn end_ends_the_reading(s: Seq<u8>, at: int)
    requires
        at >= s.len(),
    ensures
        segment_returns(s, at),
{
}

/// An element of the segment that is none of its known parts is passed over.
pub proof fn other_parts_are_passed_over(s: Seq<u8>, at: int)
    requires
        0 <= at,
        element_fits(s, at, s.len() as int),
        element_id(s, at) != 0x114D9B74,
        element_id(s, at) != 0x1549A966,
        element_id(s, at) != 0x1654AE6B,
        element_id(s, at) != 0x1C53BB6B,
        element_id(s, at) != 0x1254C367,
        element_id(s, at) != 0x1F43B675,
        content_start(s, at) < content_end(s, at),
    ensures
        segment_returns(s, at) == segment_returns(s, content_end(s, at)),
{
}

/// A known part of the segment that can be read to its end is passed over.
pub proof fn readable_parts_are_passed_over(s: Seq<u8>, at: int, inner: Elements)
    requires
        0 <= at,
        element_fits(s, at, s.len() as int),
        elements_in(Elements::Segment, element_id(s, at)) == Some(inner),
        content_start(s, at) < content_end(s, at),
        elements_end(inner, s, content_start(s, at), content_end(s, at)) == Some(
            content_end(s, at),
        ),
    ensures
        segment_returns(s, at) == segment_returns(s, content_end(s, at)),
{
}

/// The index, the information on the segment, the tracks, the index of the audio and the tags are
/// the known parts of a segment.
pub proof fn known_parts_of_a_segment(id: int)
    ensures
        elements_in(Elements::Segment, id) == Some(Elements::SeekHead) <==> id == 0x114D9B74,
        elements_in(Elements::Segment, id) == Some(Elements::Info) <==> id == 0x1549A966,
        elements_in(Elements::Segment, id) == Some(Elements::Tracks) <==> id == 0x1654AE6B,
        elements_in(Elements::Segment, id) == Some(Elements::Cues) <==> id == 0x1C53BB6B,
        elements_in(Elements::Segment, id) == Some(Elements::Tags) <==> id == 0x1254C367,
        elements_in(Elements::Tracks, id) == Some(Elements::TrackEntry) <==> id == 0xAE,
        elements_in(Elements::TrackEntry, id) == Some(Elements::Audio) <==> id == 0xE1,
{
}

/// An element of a part that holds no elements, and that is not read, or lies within the part and
/// can be used, is passed over.
pub proof fn plain_elements_are_passed_over(kind: Elements, s: Seq<u8>, at: int, end: int)
    requires
        0 <= at < end,
        element_fits(s, at, s.len() as int),
        elements_in(kind, element_id(s, at)) is None,
        !is_read(kind, element_id(s, at)) || (content_end(s, at) <= end && content_returns(
            kind,
            element_id(s, at),
            s,
            content_start(s, at),
            content_end(s, at),
        )),
        content_start(s, at) <= content_end(s, at),
    ensures
        elements_end(kind, s, at, end) == elements_end(kind, s, content_end(s, at), end),
        elements_end(kind, s, end, end) == Some(end),
{
}

/// A time scale can be used that is a number of up to four bytes other than zero. One of zero
/// cannot be.
pub proof fn time_scale_is_not_zero(s: Seq<u8>, from: int, n: int)
    requires
        1 <= n <= 4,
    ensures
        content_returns(Elements::Info, 0x2AD7B1, s, from, from + n) <==> exists|k: int|
            from <= k < from + n && #[trigger] s[k] != 0,
{
    reveal_with_fuel(number_from, 5);
    numbers_are_made_of_bytes(s, from);
    if exists|k: int| from <= k < from + n && #[trigger] s[k] != 0 {
        let k = choose|k: int| from <= k < from + n && #[trigger] s[k] != 0;
        assert(k == from || k == from + 1 || k == from + 2 || k == from + 3);
    } else {
        assert(s[from] == 0);
        assert(n > 1 ==> s[from + 1] == 0);
        assert(n > 2 ==> s[from + 2] == 0);
        assert(n > 3 ==> s[from + 3] == 0);
    }
}

/// Nothing but a time scale, a place in the segment, and the private data of a track keeps an
/// element from being used, whatever it holds and however long it is.
pub proof fn other_content_can_be_used(kind: Elements, id: int, s: Seq<u8>, from: int, end: int)
    requires
        id != 0x2AD7B1,
        id != 0x53AC,
        id != 0xF1,
        id != 0x63A2,
    ensures
        content_returns(kind, id, s, from, end),
{
}

/// The private data of a track can be used that is not the header of a FLAC stream, or is one whose
/// first block describes the stream.
pub proof fn private_data_can_be_used(s: Seq<u8>, from: int, end: int)
    requires
        !reads(s, from, seq![0x66, 0x4C, 0x61, 0x43]) || s[from + 4] % 128 == 0,
    ensures
        content_returns(Elements::TrackEntry, 0x63A2, s, from, end),
{
    if 0 <= from && from + 4 <= s.len() {
        let mark = s.subrange(from, from + 4);
        assert(mark =~= seq![s[from], s[from + 1], s[from + 2], s[from + 3]]);
    }
}

/// Bytes that begin no element are passed over, up to the next part of the segment.
pub proof fn stray_bytes_are_passed_over(s: Seq<u8>, at: int)
    requires
        0 <= at < s.len(),
        s[at] < 16,
    ensures
        segment_returns(s, at) == segment_returns(s, next_part(s, at + 1)),
        at < next_part(s, at + 1) <= s.len(),
{
    parts_are_looked_for_ahead(s, at + 1);
}

proof fn parts_are_looked_for_ahead(s: Seq<u8>, at: int)
    requires
        0 <= at <= s.len(),
    ensures
        at <= next_part(s, at) <= s.len(),
    decreases s.len() - at,
{
    if at < s.len() {
        parts_are_looked_for_ahead(s, at + 1);
    }
}

/// A place in the segment can be used that is a number of fewer than eight bytes, or one of eight
/// that is not so large as to have its first bit set.
pub proof fn places_can_be_used(s: Seq<u8>, from: int, end: int)
    ensures
        content_returns(Elements::Seek, 0x53AC, s, from, end) <==> end < from + 8 || s[from] < 128,
        content_returns(Elements::CuePositions, 0xF1, s, from, end) <==> end < from + 8 || s[from]
            < 128,
{
}

/// An element that holds elements is passed over if those can be read, up to where it ends.
pub proof fn readable_elements_are_passed_over(
    kind: Elements,
    s: Seq<u8>,
    at: int,
    end: int,
    inner: Elements,
)
    requires
        0 <= at < end,
        element_fits(s, at, s.len() as int),
        elements_in(kind, element_id(s, at)) == Some(inner),
        content_start(s, at) < content_end(s, at),
        elements_end(inner, s, content_start(s, at), content_end(s, at)) == Some(
            content_end(s, at),
        ),
    ensures
        elements_end(kind, s, at, end) == elements_end(kind, s, content_end(s, at), end),
{
}

/// The known entries of the indexes and of the tags of a segment.
pub proof fn known_entries_of_a_segment(id: int)
    ensures
        elements_in(Elements::SeekHead, id) == Some(Elements::Seek) <==> id == 0x4DBB,
        elements_in(Elements::Cues, id) == Some(Elements::CuePoint) <==> id == 0xBB,
        elements_in(Elements::CuePoint, id) == Some(Elements::CuePositions) <==> id == 0xB7,
        elements_in(Elements::Tags, id) == Some(Elements::Tag) <==> id == 0x7373,
        elements_in(Elements::Tag, id) == Some(Elements::SimpleTag) <==> id == 0x67C8,
        elements_in(Elements::Ebml, id) is None,
        elements_in(Elements::Seek, id) is None,
        elements_in(Elements::Info, id) is None,
        elements_in(Elements::Audio, id) is None,
        elements_in(Elements::CuePositions, id) is None,
        elements_in(Elements::SimpleTag, id) is None,
{
}

/// Of the header of the file its versions, its limits and its kind are read; of a track its number,
/// its codec and its language, and of its audio the rates, the channels and the depth.
pub proof fn elements_that_are_read(id: int)
    ensures
        is_read(Elements::Ebml, id) <==> (0x4285 <= id <= 0x4287 || id == 0x4282 || id == 0x42F2
            || id == 0x42F3 || id == 0x42F7),
        is_read(Elements::Info, id) <==> (id == 0x2AD7B1 || id == 0x4489 || id == 0x7BA9 || id
            == 0x4D80 || id == 0x5741),
        is_read(Elements::TrackEntry, id) <==> (id == 0xD7 || id == 0x86 || id == 0x73C5 || id
            == 0x63A2 || id == 0x23E383 || id == 0x22B59C),
        is_read(Elements::Audio, id) <==> (id == 0xB5 || id == 0x9F || id == 0x78B5 || id
            == 0x6264),
        is_read(Elements::Seek, id) <==> (id == 0x53AB || id == 0x53AC),
        is_read(Elements::CuePoint, id) <==> id == 0xB3,
        is_read(Elements::CuePositions, id) <==> (id == 0xF7 || id == 0xF1),
        is_read(Elements::SimpleTag, id) <==> (id == 0x45A3 || id == 0x4487 || id == 0x4485),
        !is_read(Elements::Segment, id),
        !is_read(Elements::SeekHead, id),
        !is_read(Elements::Tracks, id),
        !is_read(Elements::Cues, id),
        !is_read(Elements::Tags, id),
        !is_read(Elements::Tag, id),
{
}

/// A cluster, one of the indexes, the information, the tags or the tracks begin at `at`.
pub open spec fn begins_a_part(s: Seq<u8>, at: int) -> bool {
    ||| reads(s, at, seq![0x1F, 0x43, 0xB6, 0x75])
    ||| reads(s, at, seq![0x1C, 0x53, 0xBB, 0x6B])
    ||| reads(s, at, seq![0x15, 0x49, 0xA9, 0x66])
    ||| reads(s, at, seq![0x11, 0x4D, 0x9B, 0x74])
    ||| reads(s, at, seq![0x12, 0x54, 0xC3, 0x67])
    ||| reads(s, at, seq![0x16, 0x54, 0xAE, 0x6B])
}

proof fn parts_are_told_by_their_first_bytes(s: Seq<u8>, at: int)
    ensures
        is_part(s, at) <==> begins_a_part(s, at),
{
    if 0 <= at && at + 4 <= s.len() {
        let mark = s.subrange(at, at + 4);
        assert(mark =~= seq![s[at], s[at + 1], s[at + 2], s[at + 3]]);
        assert forall|a: u8, b: u8, c: u8, d: u8| #[trigger]
            seq![a, b, c, d] == mark implies a == s[at] && b == s[at + 1] && c == s[at + 2] && d
            == s[at + 3] by {
            assert(seq![a, b, c, d][0] == a && seq![a, b, c, d][1] == b && seq![a, b, c, d][2] == c
                && seq![a, b, c, d][3] == d);
        }
    }
}

/// Behind stray bytes the segment goes on with the next part of it that there is, or not at all.
pub proof fn next_part_is_found(s: Seq<u8>, at: int)
    requires
        0 <= at <= s.len(),
    ensures
        at <= next_part(s, at) <= s.len(),
        next_part(s, at) < s.len() ==> begins_a_part(s, next_part(s, at)),
        forall|k: int| at <= k < next_part(s, at) ==> !#[trigger] begins_a_part(s, k),
    decreases s.len() - at,
{
    parts_are_told_by_their_first_bytes(s, at);
    if at < s.len() && !is_part(s, at) {
        next_part_is_found(s, at + 1);
    }
}

/// A length of two bytes has its value in 14 bits of them, and an element of unknown length ends
/// where it begins.
pub proof fn longer_and_unknown_lengths(s: Seq<u8>, at: int, id_bytes: int)
    requires
        id_bytes > 0,
        id_len(s[at]) == id_bytes,
    ensures
        ({
            let first = s[at + id_bytes];
            &&& 64 <= first < 128 ==> content_start(s, at) == at + id_bytes + 2 && content_end(
                s,
                at,
            ) == content_start(s, at) + 256 * (first - 64) + s[at + id_bytes + 1]
            &&& first == 255 ==> content_start(s, at) == at + id_bytes + 1 && content_end(s, at)
                == content_start(s, at)
        }),
{
    reveal_with_fuel(number_from, 3);
}

/// The header of an element lies before `end` exactly if its identifier and its length are there,
/// and its content begins there at the latest.
pub proof fn headers_lie_before_the_end(s: Seq<u8>, at: int, end: int)
    requires
        at < end,
        id_len(s[at]) > 0,
        at + id_len(s[at]) < end,
        s[at + id_len(s[at])] > 0,
    ensures
        header_fits(s, at, end) <==> content_start(s, at) <= end,
        element_fits(s, at, end) <==> content_start(s, at) <= end && content_end(s, at) <= end,
{
    lengths_are_told_by_their_first_byte(s[at + id_len(s[at])]);
}

/// A time scale that does not fit in 32 bits, or of more than eight bytes, cannot be used.
pub proof fn time_scale_fits_in_32_bits(s: Seq<u8>, from: int, end: int)
    requires
        number(s, from, end - from) > 0xFFFF_FFFF || end > from + 8,
    ensures
        !content_returns(Elements::Info, 0x2AD7B1, s, from, end),
{
}

} // verus!
