//! Ogg: pages with a table of segments, over which packets are spread.
use vstd::prelude::*;

use crate::container::bytes::{has_tag, number, read_number, tag_at};
use crate::container::vorbis::{check_setup, setup_returns};

verus! {

/// A page begins at `at`.
pub open spec fn is_page(s: Seq<u8>, at: int) -> bool {
    tag_at(s, at, 0x4F, 0x67, 0x67, 0x53)
}

/// The number of segments of the page at `page`.
pub open spec fn segments(s: Seq<u8>, page: int) -> int {
    s[page + 26] as int
}

/// Where segment `k` of the page at `page` begins.
pub open spec fn segment_start(s: Seq<u8>, page: int, k: int) -> int
    decreases k,
{
    if k <= 0 {
        page + 27 + segments(s, page)
    } else {
        segment_start(s, page, k - 1) + s[page + 27 + k - 1]
    }
}

/// Where the page at `page` ends.
pub open spec fn page_end(s: Seq<u8>, page: int) -> int {
    segment_start(s, page, segments(s, page))
}

/// The page at `page` is there to its end.
pub open spec fn is_complete(s: Seq<u8>, page: int) -> bool {
    &&& page + 27 <= s.len()
    &&& page + 27 + segments(s, page) <= s.len()
    &&& page_end(s, page) <= s.len()
}

/// Where the first page begins from `at` on, or the end if none does.
pub open spec fn next_page(s: Seq<u8>, at: int) -> int
    decreases s.len() - at,
{
    if at < 0 || at >= s.len() || is_page(s, at) {
        at
    } else {
        next_page(s, at + 1)
    }
}

/// The stream that the page at `page` belongs to.
pub open spec fn stream_of(s: Seq<u8>, page: int) -> int {
    number(s, page + 14, 4)
}

/// Where the next page of a stream begins, from `at` on, if it is there to its end.
pub open spec fn page_of(s: Seq<u8>, stream: int, at: int) -> Option<int>
    decreases s.len() - at,
{
    let page = next_page(s, at);
    if at < 0 || page < at || page >= s.len() || !is_complete(s, page) {
        None
    } else if stream_of(s, page) == stream {
        Some(page)
    } else if page_end(s, page) > at {
        page_of(s, stream, page_end(s, page))
    } else {
        None
    }
}

/// The segment behind the last one, from `k` on, of a packet or of the part of it that is on the
/// page at `page`: a segment of fewer than 255 bytes is the last one of a packet.
pub open spec fn packet_stop(s: Seq<u8>, page: int, k: int) -> int
    decreases segments(s, page) - k,
{
    if k >= segments(s, page) {
        k
    } else if s[page + 27 + k] < 255 {
        k + 1
    } else {
        packet_stop(s, page, k + 1)
    }
}

/// The packet that begins with segment `k` of the page at `page` and goes on with the next pages
/// of its stream, if its end is there.
pub open spec fn packet(s: Seq<u8>, page: int, k: int) -> Option<Seq<u8>>
    decreases s.len() - page,
{
    let stop = packet_stop(s, page, k);
    let part = s.subrange(segment_start(s, page, k), segment_start(s, page, stop));
    if page < 0 || page + 27 > s.len() {
        None
    } else if stop > k && s[page + 27 + stop - 1] < 255 {
        Some(part)
    } else {
        match page_of(s, stream_of(s, page), page_end(s, page)) {
            None => None,
            Some(next) => if next <= page || next >= s.len() {
                None
            } else {
                match packet(s, next, 0) {
                    None => None,
                    Some(rest) => Some(part + rest),
                }
            },
        }
    }
}

/// The packet that begins with segment `k` of the page at `page` is the setup header of a Vorbis
/// stream.
pub open spec fn is_setup(s: Seq<u8>, page: int, k: int) -> bool {
    let at = segment_start(s, page, k);
    &&& k == 0 || s[page + 27 + k - 1] < 255
    &&& at + 7 <= s.len()
    &&& s[at] == 5
    &&& tag_at(s, at + 1, 0x76, 0x6F, 0x72, 0x62)
    &&& s[at + 5] == 0x69
    &&& s[at + 6] == 0x73
}

/// The packets of the page at `page`, from segment `k` on, can be read.
pub open spec fn packets_return(s: Seq<u8>, page: int, k: int) -> bool
    decreases segments(s, page) - k,
{
    k < segments(s, page) ==> {
        &&& is_setup(s, page, k) ==> match packet(s, page, k) {
            None => true,
            Some(setup) => setup_returns(setup),
        }
        &&& packets_return(s, page, k + 1)
    }
}

/// Recognition of the Ogg file comes to an end, as far as the pages from `page` on are concerned.
pub open spec fn ogg_returns(s: Seq<u8>, page: int) -> bool
    decreases s.len() - page,
{
    if page < 0 || page >= s.len() || !is_complete(s, page) {
        true
    } else {
        let next = next_page(s, page_end(s, page));
        &&& packets_return(s, page, 0)
        &&& page < next <= s.len()
        &&& ogg_returns(s, next)
    }
}

proof fn segments_follow(s: Seq<u8>, page: int, j: int, k: int)
    requires
        0 <= j <= k,
    ensures
        page + 27 + segments(s, page) <= segment_start(s, page, j) <= segment_start(s, page, k),
        segment_start(s, page, k) <= page + 27 + segments(s, page) + 255 * k,
    decreases k,
{
    if k > j {
        segments_follow(s, page, j, k - 1);
    } else if k > 0 {
        segments_follow(s, page, j - 1, k - 1);
    }
}

/// The end of the page at `page`, if it is there to its end.
fn read_page_end(s: &[u8], page: usize) -> (r: Option<usize>)
    requires
        page < s.len(),
    ensures
        match r {
            Some(end) => {
                &&& is_complete(s@, page as int)
                &&& end == page_end(s@, page as int)
                &&& page + 27 <= end <= s.len()
            },
            None => !is_complete(s@, page as int),
        },
{
    if s.len() - page < 27 || s.len() - page - 27 < s[page + 26] as usize {
        return None;
    }
    let n: usize = s[page + 26] as usize;
    match read_segment_start(s, page, n) {
        Some(end) => Some(end),
        None => None,
    }
}

/// Where segment `k` of the page at `page` begins, if that is there.
fn read_segment_start(s: &[u8], page: usize, k: usize) -> (r: Option<usize>)
    requires
        page + 27 + segments(s@, page as int) <= s.len(),
        k <= segments(s@, page as int),
    ensures
        match r {
            Some(at) => {
                &&& at == segment_start(s@, page as int, k as int)
                &&& page + 27 + segments(s@, page as int) <= at <= s.len()
            },
            None => segment_start(s@, page as int, k as int) > s.len(),
        },
{
    let mut at: usize = page + 27 + s[page + 26] as usize;
    for j in 0..k
        invariant
            page + 27 + segments(s@, page as int) <= at <= s.len(),
            k <= segments(s@, page as int),
            at == segment_start(s@, page as int, j as int),
    {
        let len: usize = s[page + 27 + j] as usize;
        if len > s.len() - at {
            proof {
                segments_follow(s@, page as int, j + 1, k as int);
            }
            return None;
        }
        at = at + len;
    }
    Some(at)
}

fn find_next_page(s: &[u8], start: usize) -> (r: usize)
    requires
        start <= s.len(),
    ensures
        r == next_page(s@, start as int),
        start <= r <= s.len(),
{
    let mut at: usize = start;
    while at < s.len() && !has_tag(s, at, 0x4F, 0x67, 0x67, 0x53)
        invariant
            start <= at <= s.len(),
            next_page(s@, start as int) == next_page(s@, at as int),
        decreases s.len() - at,
    {
        at = at + 1;
    }
    at
}

fn find_page_of(s: &[u8], stream: u64, start: usize) -> (r: Option<usize>)
    requires
        start <= s.len(),
    ensures
        match r {
            Some(page) => {
                &&& page_of(s@, stream as int, start as int) == Some(page as int)
                &&& is_complete(s@, page as int)
                &&& start <= page < s.len()
            },
            None => page_of(s@, stream as int, start as int) is None,
        },
{
    let mut at: usize = start;
    loop
        invariant
            start <= at <= s.len(),
            page_of(s@, stream as int, start as int) == page_of(s@, stream as int, at as int),
        decreases s.len() - at,
    {
        let page: usize = find_next_page(s, at);
        if page >= s.len() {
            return None;
        }
        let end: usize = match read_page_end(s, page) {
            Some(end) => end,
            None => {
                return None;
            },
        };
        if read_number(s, page + 14, 4) == stream {
            return Some(page);
        }
        at = end;
    }
}

fn find_packet_stop(s: &[u8], page: usize, start: usize) -> (r: usize)
    requires
        page + 27 + segments(s@, page as int) <= s.len(),
        start <= segments(s@, page as int),
    ensures
        r == packet_stop(s@, page as int, start as int),
        start <= r <= segments(s@, page as int),
{
    let n: usize = s[page + 26] as usize;
    let mut k: usize = start;
    while k < n
        invariant
            n == segments(s@, page as int),
            page + 27 + n <= s.len(),
            start <= k <= n,
            packet_stop(s@, page as int, start as int) == packet_stop(s@, page as int, k as int),
        decreases n - k,
    {
        if s[page + 27 + k] < 255 {
            return k + 1;
        }
        k = k + 1;
    }
    k
}

/// The packet that begins with segment `start` of the page at `first`, if its end is there.
fn read_packet(s: &[u8], first: usize, start: usize) -> (r: Option<Vec<u8>>)
    requires
        first < s.len(),
        is_complete(s@, first as int),
        start <= segments(s@, first as int),
    ensures
        match r {
            Some(bytes) => packet(s@, first as int, start as int) == Some(bytes@),
            None => packet(s@, first as int, start as int) is None,
        },
{
    let mut bytes: Vec<u8> = Vec::new();
    let mut page: usize = first;
    let mut k: usize = start;
    loop
        invariant
            page < s.len(),
            is_complete(s@, page as int),
            k <= segments(s@, page as int),
            packet(s@, first as int, start as int) == match packet(s@, page as int, k as int) {
                Some(rest) => Some(bytes@ + rest),
                None => None,
            },
        decreases s.len() - page,
    {
        let stop: usize = find_packet_stop(s, page, k);
        proof {
            segments_follow(s@, page as int, k as int, stop as int);
            segments_follow(s@, page as int, stop as int, segments(s@, page as int));
        }
        let from: usize = match read_segment_start(s, page, k) {
            Some(from) => from,
            None => {
                return None;
            },
        };
        let to: usize = match read_segment_start(s, page, stop) {
            Some(to) => to,
            None => {
                return None;
            },
        };
        let ghost before = bytes@;
        for i in from..to
            invariant
                from <= to <= s.len(),
                bytes@ == before + s@.subrange(from as int, i as int),
        {
            bytes.push(s[i]);
            assert(s@.subrange(from as int, i + 1) == s@.subrange(from as int, i as int).push(
                s@[i as int],
            ));
        }
        let ghost part = s@.subrange(from as int, to as int);
        if stop > k && s[page + 27 + stop - 1] < 255 {
            return Some(bytes);
        }
        let end: usize = match read_page_end(s, page) {
            Some(end) => end,
            None => {
                return None;
            },
        };
        let stream: u64 = read_number(s, page + 14, 4);
        match find_page_of(s, stream, end) {
            None => {
                return None;
            },
            Some(next) => {
                proof {
                    if let Some(rest) = packet(s@, next as int, 0) {
                        assert(before + (part + rest) == (before + part) + rest);
                    }
                }
                page = next;
                k = 0;
            },
        }
    }
}

fn has_setup(s: &[u8], page: usize, k: usize) -> (r: bool)
    requires
        page < s.len(),
        is_complete(s@, page as int),
        k < segments(s@, page as int),
    ensures
        r == is_setup(s@, page as int, k as int),
{
    if k > 0 && s[page + 27 + k - 1] == 255 {
        return false;
    }
    match read_segment_start(s, page, k) {
        Some(at) => s.len() - at >= 7 && s[at] == 5 && has_tag(s, at + 1, 0x76, 0x6F, 0x72, 0x62)
            && s[at + 5] == 0x69 && s[at + 6] == 0x73,
        None => false,
    }
}

fn check_packets(s: &[u8], page: usize) -> (r: bool)
    requires
        page < s.len(),
        is_complete(s@, page as int),
    ensures
        r == packets_return(s@, page as int, 0),
{
    let n: usize = s[page + 26] as usize;
    for k in 0..n
        invariant
            page < s.len(),
            is_complete(s@, page as int),
            n == segments(s@, page as int),
            packets_return(s@, page as int, 0) == packets_return(s@, page as int, k as int),
    {
        if has_setup(s, page, k) {
            if let Some(setup) = read_packet(s, page, k) {
                if !check_setup(setup.as_slice()) {
                    return false;
                }
            }
        }
    }
    true
}

/// Checks the Ogg file that starts at `start`.
pub(crate) fn check_ogg(s: &[u8], start: usize) -> (r: bool)
    requires
        start <= s.len(),
    ensures
        r == ogg_returns(s@, start as int),
{
    let mut page: usize = start;
    while page < s.len()
        invariant
            start <= page <= s.len(),
            ogg_returns(s@, start as int) == ogg_returns(s@, page as int),
        decreases s.len() - page,
    {
        let end: usize = match read_page_end(s, page) {
            Some(end) => end,
            None => {
                return true;
            },
        };
        if !check_packets(s, page) {
            return false;
        }
        page = find_next_page(s, end);
    }
    true
}

} // verus!
