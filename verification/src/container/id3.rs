//! Tags in front of a container.
use vstd::prelude::*;

verus! {

/// A tag begins at `at`.
pub open spec fn is_tag(s: Seq<u8>, at: int) -> bool {
    &&& 0 <= at
    &&& at + 3 <= s.len()
    &&& s[at] == 0x49
    &&& s[at + 1] == 0x44
    &&& s[at + 2] == 0x33
}

/// Whether a tag begins at `at`.
pub(crate) fn has_id3(s: &[u8], at: usize) -> (r: bool)
    ensures
        r == is_tag(s@, at as int),
{
    at <= s.len() && s.len() - at >= 3 && s[at] == 0x49 && s[at + 1] == 0x44 && s[at + 2] == 0x33
}

/// Where the tag at `at` ends: its length is in the low 7 bits of 4 bytes.
pub open spec fn tag_end(s: Seq<u8>, at: int) -> int {
    at + 10 + ((s[at + 6] % 128) * 128 + s[at + 7] % 128) * 16384 + (s[at + 8] % 128) * 128 + s[at
        + 9] % 128
}

/// The flags of the extended header of the tag at `at`.
pub open spec fn extended_flags(s: Seq<u8>, at: int) -> int {
    s[at + 15] as int
}

/// Where the tag at `at` restricts what it may hold: behind what its extended header says of an
/// update and of a checksum.
pub open spec fn restrictions(s: Seq<u8>, at: int) -> int {
    at + 17 + (if extended_flags(s, at) / 64 % 2 == 1 {
        1int
    } else {
        0
    }) + (if extended_flags(s, at) / 32 % 2 == 1 {
        6int
    } else {
        0
    })
}

/// The tag at `at` can be read: if it is of the fourth version and restricts what it may hold, the
/// second bit of the restrictions is clear, which reading takes for granted.
pub open spec fn tag_returns(s: Seq<u8>, at: int) -> bool {
    s[at + 3] == 4 && s[at + 5] / 64 % 2 == 1 && extended_flags(s, at) / 16 % 2 == 1 ==> {
        &&& restrictions(s, at) < s.len()
        &&& s[restrictions(s, at)] / 64 % 2 == 0
    }
}

/// Reads where the tag at `at` ends, if that is there.
pub(crate) fn read_tag_end(s: &[u8], at: usize) -> (r: Option<usize>)
    requires
        at + 16 <= s.len(),
    ensures
        match r {
            Some(end) => end == tag_end(s@, at as int) && at < end <= s.len(),
            None => tag_end(s@, at as int) > s.len(),
        },
{
    let high: u32 = (s[at + 6] % 128) as u32 * 128 + (s[at + 7] % 128) as u32;
    let low: u32 = (s[at + 8] % 128) as u32 * 128 + (s[at + 9] % 128) as u32;
    let len: u32 = high * 16384 + low;
    if len as u64 > (s.len() - at - 10) as u64 {
        return None;
    }
    Some(at + 10 + len as usize)
}

/// Whether the tag at `at` can be read.
pub(crate) fn check_tag(s: &[u8], at: usize) -> (r: bool)
    requires
        at + 16 <= s.len(),
    ensures
        r == tag_returns(s@, at as int),
{
    let flags: u8 = s[at + 15];
    if s[at + 3] != 4 || s[at + 5] / 64 % 2 != 1 || flags / 16 % 2 != 1 {
        return true;
    }
    let update: usize = if flags / 64 % 2 == 1 {
        1
    } else {
        0
    };
    let checksum: usize = if flags / 32 % 2 == 1 {
        6
    } else {
        0
    };
    if s.len() - at - 16 <= 1 + update + checksum {
        return false;
    }
    s[at + 17 + update + checksum] / 64 % 2 == 0
}

} // verus!
