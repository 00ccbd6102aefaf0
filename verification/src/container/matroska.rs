//! Matroska and WebM: elements with an identifier and a length, some of which hold elements.
use vstd::prelude::*;

use crate::container::bytes::{
    has_tag, number, number_from, read_number, read_number_from, tag_at,
};

verus! {

/// What a run of elements belongs to.
#[derive(Debug, Clone, Copy, PartialEq, Eq, Structural)]
pub enum Elements {
    /// The header of the file.
    Ebml,
    /// The segment, which is the rest of the file.
    Segment,
    /// The index of the segment.
    SeekHead,
    /// An entry of the index.
    Seek,
    /// Information on the segment.
    Info,
    /// The tracks.
    Tracks,
    /// A track.
    TrackEntry,
    /// What a track says of its audio.
    Audio,
    /// The index of the audio.
    Cues,
    /// An entry of that index.
    CuePoint,
    /// The places that such an entry is about.
    CuePositions,
    /// The tags.
    Tags,
    /// A tag.
    Tag,
    /// A part of a tag.
    SimpleTag,
}

/// The length of an identifier that begins with that byte, or 0 if none does.
pub open spec fn id_len(first: u8) -> int {
    if first >= 128 {
        1
    } else if first >= 64 {
        2
    } else if first >= 32 {
        3
    } else if first >= 16 {
        4
    } else {
        0
    }
}

/// The length of the length that begins with that byte, or 0 if none does.
pub open spec fn size_len(first: u8) -> int {
    if first >= 128 {
        1
    } else if first >= 64 {
        2
    } else if first >= 32 {
        3
    } else if first >= 16 {
        4
    } else if first >= 8 {
        5
    } else if first >= 4 {
        6
    } else if first >= 2 {
        7
    } else if first == 1 {
        8
    } else {
        0
    }
}

/// The part of the first byte of a length that belongs to its value.
pub open spec fn size_bits(first: u8) -> int {
    if first >= 128 {
        first - 128
    } else if first >= 64 {
        first - 64
    } else if first >= 32 {
        first - 32
    } else if first >= 16 {
        first - 16
    } else if first >= 8 {
        first - 8
    } else if first >= 4 {
        first - 4
    } else if first >= 2 {
        first - 2
    } else {
        0
    }
}

/// The identifier of the element at `at`.
pub open spec fn element_id(s: Seq<u8>, at: int) -> int {
    number(s, at, id_len(s[at]))
}

/// The header of the element at `at` lies before `end`.
pub open spec fn header_fits(s: Seq<u8>, at: int, end: int) -> bool {
    let size = at + id_len(s[at]);
    &&& at < end
    &&& at < size < end
    &&& size_len(s[size]) > 0
    &&& size + size_len(s[size]) <= end
}

/// Where the content of the element at `at` begins.
pub open spec fn content_start(s: Seq<u8>, at: int) -> int {
    let size = at + id_len(s[at]);
    size + size_len(s[size])
}

/// Where the content of the element at `at` ends. That of an element of unknown length ends where
/// it begins.
pub open spec fn content_end(s: Seq<u8>, at: int) -> int {
    let size = at + id_len(s[at]);
    content_start(s, at) + (if s[size] == 0xFF {
        0
    } else {
        number_from(size_bits(s[size]), s, size + 1, size_len(s[size]) - 1)
    })
}

/// The element at `at` lies before `end`.
pub open spec fn element_fits(s: Seq<u8>, at: int, end: int) -> bool {
    header_fits(s, at, end) && content_end(s, at) <= end
}

/// What an element with that identifier holds, if that is elements which are read.
pub open spec fn elements_in(kind: Elements, id: int) -> Option<Elements> {
    match kind {
        Elements::Segment => if id == 0x114D9B74 {
            Some(Elements::SeekHead)
        } else if id == 0x1549A966 {
            Some(Elements::Info)
        } else if id == 0x1654AE6B {
            Some(Elements::Tracks)
        } else if id == 0x1C53BB6B {
            Some(Elements::Cues)
        } else if id == 0x1254C367 {
            Some(Elements::Tags)
        } else {
            None
        },
        Elements::SeekHead => if id == 0x4DBB {
            Some(Elements::Seek)
        } else {
            None
        },
        Elements::Tracks => if id == 0xAE {
            Some(Elements::TrackEntry)
        } else {
            None
        },
        Elements::TrackEntry => if id == 0xE1 {
            Some(Elements::Audio)
        } else {
            None
        },
        Elements::Cues => if id == 0xBB {
            Some(Elements::CuePoint)
        } else {
            None
        },
        Elements::CuePoint => if id == 0xB7 {
            Some(Elements::CuePositions)
        } else {
            None
        },
        Elements::Tags => if id == 0x7373 {
            Some(Elements::Tag)
        } else {
            None
        },
        Elements::Tag => if id == 0x67C8 {
            Some(Elements::SimpleTag)
        } else {
            None
        },
        _ => None,
    }
}

/// The content from `from` to `end` is the header of a FLAC stream whose first block is empty and
/// not the one that describes the stream: that one is looked for without end.
pub open spec fn is_endless_flac(s: Seq<u8>, from: int, end: int) -> bool {
    &&& from + 8 <= end
    &&& tag_at(s, from, 0x66, 0x4C, 0x61, 0x43)
    &&& s[from + 4] % 128 != 0
    &&& s[from + 5] == 0 && s[from + 6] == 0 && s[from + 7] == 0
}

/// The content from `from` to `end` of an element with that identifier, which holds no elements,
/// can be used: a time scale is a number of 32 bits other than zero, and a place in the segment
/// one of 63 bits.
pub open spec fn content_returns(kind: Elements, id: int, s: Seq<u8>, from: int, end: int) -> bool {
    match kind {
        Elements::Info => id == 0x2AD7B1 ==> {
            &&& end - from <= 8
            &&& 0 < number(s, from, end - from) <= 0xFFFF_FFFF
        },
        Elements::Seek => id == 0x53AC ==> end - from < 8 || s[from] < 128,
        Elements::CuePositions => id == 0xF1 ==> end - from < 8 || s[from] < 128,
        Elements::TrackEntry => id == 0x63A2 ==> !is_endless_flac(s, from, end),
        _ => true,
    }
}

/// An element with that identifier, which holds no elements, is read: it must then lie within what
/// it belongs to.
pub open spec fn is_read(kind: Elements, id: int) -> bool {
    match kind {
        Elements::Ebml => id == 0x4286 || id == 0x42F7 || id == 0x42F2 || id == 0x42F3
            || id == 0x4282 || id == 0x4287 || id == 0x4285,
        Elements::Seek => id == 0x53AB || id == 0x53AC,
        Elements::Info => id == 0x2AD7B1 || id == 0x4489 || id == 0x7BA9 || id == 0x4D80
            || id == 0x5741,
        Elements::TrackEntry => id == 0xD7 || id == 0x73C5 || id == 0x23E383 || id == 0x22B59C
            || id == 0x86 || id == 0x63A2,
        Elements::Audio => id == 0xB5 || id == 0x78B5 || id == 0x9F || id == 0x6264,
        Elements::CuePoint => id == 0xB3,
        Elements::CuePositions => id == 0xF7 || id == 0xF1,
        Elements::SimpleTag => id == 0x45A3 || id == 0x4487 || id == 0x4485,
        _ => false,
    }
}

/// Where reading the elements of something of that kind ends, from `at` on, which itself ends at
/// `end`, if they can be read. An element that is passed over may reach beyond that end, and so may
/// one that holds elements, except for those of a list.
pub open spec fn elements_end(kind: Elements, s: Seq<u8>, at: int, end: int) -> Option<int>
    decreases s.len() - at,
{
    let from = content_start(s, at);
    let stop = content_end(s, at);
    if at >= end {
        Some(at)
    } else if at < 0 || !element_fits(s, at, s.len() as int) {
        None
    } else {
        match elements_in(kind, element_id(s, at)) {
            Some(inner) => if at < from < stop {
                match elements_end(inner, s, from, stop) {
                    Some(next) => if at < next <= s.len() && ((kind == Elements::Tracks || kind
                        == Elements::Cues) ==> next == stop) {
                        elements_end(kind, s, next, end)
                    } else {
                        None
                    },
                    None => None,
                }
            } else {
                None
            },
            None => if at < stop && (is_read(kind, element_id(s, at)) ==> stop <= end
                && content_returns(kind, element_id(s, at), s, from, stop)) {
                elements_end(kind, s, stop, end)
            } else {
                None
            },
        }
    }
}

/// A part of a segment of one of the known kinds begins at `at`.
pub open spec fn is_part(s: Seq<u8>, at: int) -> bool {
    ||| tag_at(s, at, 0x1F, 0x43, 0xB6, 0x75)
    ||| tag_at(s, at, 0x1C, 0x53, 0xBB, 0x6B)
    ||| tag_at(s, at, 0x15, 0x49, 0xA9, 0x66)
    ||| tag_at(s, at, 0x11, 0x4D, 0x9B, 0x74)
    ||| tag_at(s, at, 0x12, 0x54, 0xC3, 0x67)
    ||| tag_at(s, at, 0x16, 0x54, 0xAE, 0x6B)
}

/// Where the first part of a segment begins, from `at` on, or the end if none does.
pub open spec fn next_part(s: Seq<u8>, at: int) -> int
    decreases s.len() - at,
{
    if at < 0 || at >= s.len() || is_part(s, at) {
        at
    } else {
        next_part(s, at + 1)
    }
}

/// The segment can be read from `at` on up to the first audio, or to where the bytes end. Bytes
/// that belong to no element are passed over.
pub open spec fn segment_returns(s: Seq<u8>, at: int) -> bool
    decreases s.len() - at,
{
    let size = at + id_len(s[at]);
    let next = content_end(s, at);
    if at < 0 || at >= s.len() {
        true
    } else if id_len(s[at]) == 0 {
        let part = next_part(s, at + 1);
        at < part <= s.len() && segment_returns(s, part)
    } else if size >= s.len() {
        true
    } else if size_len(s[size]) == 0 {
        false
    } else if content_start(s, at) > s.len() || element_id(s, at) == 0x1F43B675 {
        true
    } else {
        match elements_in(Elements::Segment, element_id(s, at)) {
            Some(inner) => {
                &&& at < content_start(s, at) < next <= s.len()
                &&& elements_end(inner, s, content_start(s, at), next) matches Some(stop) && at
                    < stop <= s.len() && segment_returns(s, stop)
            },
            None => at < next <= s.len() && segment_returns(s, next),
        }
    }
}

/// Recognition of the Matroska file that starts at `start` comes to an end.
pub open spec fn matroska_returns(s: Seq<u8>, start: int) -> bool {
    let from = content_start(s, start);
    let end = content_end(s, start);
    &&& element_fits(s, start, s.len() as int)
    &&& from < end
    &&& elements_end(Elements::Ebml, s, from, end) matches Some(segment) && header_fits(
        s,
        segment,
        s.len() as int,
    ) && tag_at(s, segment, 0x18, 0x53, 0x80, 0x67) && segment_returns(
        s,
        content_start(s, segment),
    )
}

fn read_id_len(first: u8) -> (r: usize)
    ensures
        r == id_len(first),
        r <= 4,
{
    if first >= 128 {
        1
    } else if first >= 64 {
        2
    } else if first >= 32 {
        3
    } else if first >= 16 {
        4
    } else {
        0
    }
}

/// The length of a length that begins with that byte, and the part of it that belongs to the
/// value.
fn read_size_len(first: u8) -> (r: (usize, u8))
    ensures
        r.0 == size_len(first),
        r.1 == size_bits(first),
        r.0 <= 8,
{
    if first >= 128 {
        (1, first - 128)
    } else if first >= 64 {
        (2, first - 64)
    } else if first >= 32 {
        (3, first - 32)
    } else if first >= 16 {
        (4, first - 16)
    } else if first >= 8 {
        (5, first - 8)
    } else if first >= 4 {
        (6, first - 4)
    } else if first >= 2 {
        (7, first - 2)
    } else if first == 1 {
        (8, 0)
    } else {
        (0, 0)
    }
}

/// The header of an element.
struct Header {
    id: u64,
    start: usize,
    len: u64,
}

fn read_header(s: &[u8], at: usize, end: usize) -> (r: Option<Header>)
    requires
        at < end <= s.len(),
    ensures
        match r {
            Some(header) => {
                &&& header_fits(s@, at as int, end as int)
                &&& header.id == element_id(s@, at as int)
                &&& header.start == content_start(s@, at as int)
                &&& header.start + header.len == content_end(s@, at as int)
                &&& at < header.start <= end
            },
            None => !header_fits(s@, at as int, end as int),
        },
{
    let id_len: usize = read_id_len(s[at]);
    if id_len == 0 || end - at <= id_len {
        return None;
    }
    let size: usize = at + id_len;
    let (size_len, bits): (usize, u8) = read_size_len(s[size]);
    if size_len == 0 || end - size < size_len {
        return None;
    }
    let id: u64 = read_number(s, at, id_len);
    let len: u64 = if s[size] == 0xFF {
        0
    } else {
        read_number_from(bits, s, size + 1, size_len - 1)
    };
    Some(Header { id, start: size + size_len, len })
}

fn find_elements_in(kind: Elements, id: u64) -> (r: Option<Elements>)
    ensures
        r == elements_in(kind, id as int),
{
    match kind {
        Elements::Segment => if id == 0x114D9B74 {
            Some(Elements::SeekHead)
        } else if id == 0x1549A966 {
            Some(Elements::Info)
        } else if id == 0x1654AE6B {
            Some(Elements::Tracks)
        } else if id == 0x1C53BB6B {
            Some(Elements::Cues)
        } else if id == 0x1254C367 {
            Some(Elements::Tags)
        } else {
            None
        },
        Elements::SeekHead => if id == 0x4DBB {
            Some(Elements::Seek)
        } else {
            None
        },
        Elements::Tracks => if id == 0xAE {
            Some(Elements::TrackEntry)
        } else {
            None
        },
        Elements::TrackEntry => if id == 0xE1 {
            Some(Elements::Audio)
        } else {
            None
        },
        Elements::Cues => if id == 0xBB {
            Some(Elements::CuePoint)
        } else {
            None
        },
        Elements::CuePoint => if id == 0xB7 {
            Some(Elements::CuePositions)
        } else {
            None
        },
        Elements::Tags => if id == 0x7373 {
            Some(Elements::Tag)
        } else {
            None
        },
        Elements::Tag => if id == 0x67C8 {
            Some(Elements::SimpleTag)
        } else {
            None
        },
        _ => None,
    }
}

fn check_content(kind: Elements, id: u64, s: &[u8], from: usize, end: usize) -> (r: bool)
    requires
        from <= end <= s.len(),
    ensures
        r == content_returns(kind, id as int, s@, from as int, end as int),
{
    match kind {
        Elements::Info => {
            if id != 0x2AD7B1 {
                return true;
            }
            if end - from > 8 {
                return false;
            }
            let scale: u64 = read_number(s, from, end - from);
            0 < scale && scale <= 0xFFFF_FFFF
        },
        Elements::Seek => id != 0x53AC || end - from < 8 || s[from] < 128,
        Elements::CuePositions => id != 0xF1 || end - from < 8 || s[from] < 128,
        Elements::TrackEntry => !(id == 0x63A2 && end - from >= 8 && has_tag(
            s,
            from,
            0x66,
            0x4C,
            0x61,
            0x43,
        ) && s[from + 4] % 128 != 0 && s[from + 5] == 0 && s[from + 6] == 0 && s[from + 7] == 0),
        _ => true,
    }
}

fn has_read(kind: Elements, id: u64) -> (r: bool)
    ensures
        r == is_read(kind, id as int),
{
    match kind {
        Elements::Ebml => id == 0x4286 || id == 0x42F7 || id == 0x42F2 || id == 0x42F3
            || id == 0x4282 || id == 0x4287 || id == 0x4285,
        Elements::Seek => id == 0x53AB || id == 0x53AC,
        Elements::Info => id == 0x2AD7B1 || id == 0x4489 || id == 0x7BA9 || id == 0x4D80
            || id == 0x5741,
        Elements::TrackEntry => id == 0xD7 || id == 0x73C5 || id == 0x23E383 || id == 0x22B59C
            || id == 0x86 || id == 0x63A2,
        Elements::Audio => id == 0xB5 || id == 0x78B5 || id == 0x9F || id == 0x6264,
        Elements::CuePoint => id == 0xB3,
        Elements::CuePositions => id == 0xF7 || id == 0xF1,
        Elements::SimpleTag => id == 0x45A3 || id == 0x4487 || id == 0x4485,
        _ => false,
    }
}

/// Where reading the elements of something of that kind ends, if they can be read.
fn read_elements(kind: Elements, s: &[u8], start: usize, end: usize) -> (r: Option<usize>)
    requires
        start <= s.len(),
        end <= s.len(),
    ensures
        match r {
            Some(stop) => elements_end(kind, s@, start as int, end as int) == Some(stop as int)
                && start <= stop <= s.len(),
            None => elements_end(kind, s@, start as int, end as int) is None,
        },
    decreases s.len() - start,
{
    let mut at: usize = start;
    while at < end
        invariant
            start <= at <= s.len(),
            end <= s.len(),
            elements_end(kind, s@, start as int, end as int) == elements_end(
                kind,
                s@,
                at as int,
                end as int,
            ),
        decreases s.len() - at,
    {
        let header = match read_header(s, at, s.len()) {
            Some(header) => header,
            None => {
                return None;
            },
        };
        if header.len > (s.len() - header.start) as u64 {
            return None;
        }
        let stop: usize = header.start + header.len as usize;
        match find_elements_in(kind, header.id) {
            Some(inner) => {
                if header.len == 0 {
                    return None;
                }
                let next: usize = match read_elements(inner, s, header.start, stop) {
                    Some(next) => next,
                    None => {
                        return None;
                    },
                };
                if (kind == Elements::Tracks || kind == Elements::Cues) && next != stop {
                    return None;
                }
                at = next;
            },
            None => {
                if has_read(kind, header.id) && (stop > end || !check_content(
                    kind,
                    header.id,
                    s,
                    header.start,
                    stop,
                )) {
                    return None;
                }
                at = stop;
            },
        }
    }
    Some(at)
}

fn has_part(s: &[u8], at: usize) -> (r: bool)
    ensures
        r == is_part(s@, at as int),
{
    has_tag(s, at, 0x1F, 0x43, 0xB6, 0x75) || has_tag(s, at, 0x1C, 0x53, 0xBB, 0x6B) || has_tag(
        s,
        at,
        0x15,
        0x49,
        0xA9,
        0x66,
    ) || has_tag(s, at, 0x11, 0x4D, 0x9B, 0x74) || has_tag(s, at, 0x12, 0x54, 0xC3, 0x67)
        || has_tag(s, at, 0x16, 0x54, 0xAE, 0x6B)
}

fn find_next_part(s: &[u8], start: usize) -> (r: usize)
    requires
        start <= s.len(),
    ensures
        r == next_part(s@, start as int),
        start <= r <= s.len(),
{
    let mut at: usize = start;
    while at < s.len() && !has_part(s, at)
        invariant
            start <= at <= s.len(),
            next_part(s@, start as int) == next_part(s@, at as int),
        decreases s.len() - at,
    {
        at = at + 1;
    }
    at
}

fn check_segment(s: &[u8], start: usize) -> (r: bool)
    requires
        start <= s.len(),
    ensures
        r == segment_returns(s@, start as int),
{
    let mut at: usize = start;
    while at < s.len()
        invariant
            start <= at <= s.len(),
            segment_returns(s@, start as int) == segment_returns(s@, at as int),
        decreases s.len() - at,
    {
        let id_len: usize = read_id_len(s[at]);
        if id_len == 0 {
            at = find_next_part(s, at + 1);
        } else {
            if s.len() - at <= id_len {
                return true;
            }
            if s[at + id_len] == 0 {
                return false;
            }
            let header = match read_header(s, at, s.len()) {
                Some(header) => header,
                None => {
                    return true;
                },
            };
            if header.id == 0x1F43B675 {
                return true;
            }
            if header.len > (s.len() - header.start) as u64 {
                return false;
            }
            let next: usize = header.start + header.len as usize;
            match find_elements_in(Elements::Segment, header.id) {
                Some(inner) => {
                    if header.len == 0 {
                        return false;
                    }
                    at = match read_elements(inner, s, header.start, next) {
                        Some(stop) => stop,
                        None => {
                            return false;
                        },
                    };
                },
                None => {
                    at = next;
                },
            }
        }
    }
    true
}

/// Checks the Matroska file that starts at `start`.
pub(crate) fn check_matroska(s: &[u8], start: usize) -> (r: bool)
    requires
        start < s.len(),
    ensures
        r == matroska_returns(s@, start as int),
{
    let header = match read_header(s, start, s.len()) {
        Some(header) => header,
        None => {
            return false;
        },
    };
    if header.len == 0 || header.len > (s.len() - header.start) as u64 {
        return false;
    }
    let end: usize = header.start + header.len as usize;
    let segment: usize = match read_elements(Elements::Ebml, s, header.start, end) {
        Some(segment) => segment,
        None => {
            return false;
        },
    };
    if segment == s.len() {
        return false;
    }
    match read_header(s, segment, s.len()) {
        Some(header) => has_tag(s, segment, 0x18, 0x53, 0x80, 0x67) && check_segment(
            s,
            header.start,
        ),
        None => false,
    }
}

} // verus!
