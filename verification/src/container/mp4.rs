//! The ISO base media format: atoms with a length and a tag, some of which hold atoms.
use vstd::prelude::*;

use crate::container::bytes::{has_tag, number, read_number, tag_at};

verus! {

/// What a run of atoms belongs to.
#[derive(Debug, Clone, Copy, PartialEq, Eq, Structural)]
pub enum Atoms {
    /// The file.
    File,
    /// `moov`
    Movie,
    /// `trak`
    Track,
    /// `edts`
    Edits,
    /// `mdia`
    Media,
    /// `minf`
    MediaInfo,
    /// `stbl`
    SampleTable,
    /// A sample entry of audio.
    AudioEntry,
    /// `wave`
    Wave,
    /// `mvex`
    Extends,
    /// `udta`
    UserData,
    /// `meta`
    Meta,
    /// `ilst`
    Tags,
    /// One of the tags in `ilst`.
    Tag,
}

/// The tag of the atom at `at` is `a b c d`.
pub open spec fn is_atom(s: Seq<u8>, at: int, a: u8, b: u8, c: u8, d: u8) -> bool {
    tag_at(s, at + 4, a, b, c, d)
}

/// The first field of the atom at `at`: its length, or 1 if the length is a longer number, or 0
/// if it extends to the end of what it lies in.
pub open spec fn short_len(s: Seq<u8>, at: int) -> int {
    number(s, at, 4)
}

/// The length of the header of the atom at `at`.
pub open spec fn header_len(s: Seq<u8>, at: int) -> int {
    if short_len(s, at) == 1 {
        16
    } else {
        8
    }
}

/// The length of the atom at `at`, which lies in something that ends at `end`.
pub open spec fn atom_len(s: Seq<u8>, at: int, end: int) -> int {
    if short_len(s, at) == 0 {
        end - at
    } else if short_len(s, at) == 1 {
        number(s, at + 8, 8)
    } else {
        short_len(s, at)
    }
}

/// The atom at `at` lies before `end`.
pub open spec fn atom_fits(s: Seq<u8>, at: int, end: int) -> bool {
    &&& at + 8 <= end
    &&& at + header_len(s, at) <= end
    &&& header_len(s, at) <= atom_len(s, at, end) <= end - at
}

/// A tag in `ilst` whose kind is that number is read.
pub open spec fn is_read_tag(kind: int) -> bool {
    ||| kind == 0x2D2D_2D2D
    ||| kind == 0x6141_5254
    ||| kind == 0x6361_7467
    ||| kind == 0x636F_7672
    ||| kind == 0x6370_696C
    ||| kind == 0x6370_7274
    ||| kind == 0x6465_7363
    ||| kind == 0x6469_736B
    ||| kind == 0x6567_6964
    ||| kind == 0x676E_7265
    ||| kind == 0x6B65_7977
    ||| kind == 0x6C64_6573
    ||| kind == 0x6F77_6E72
    ||| kind == 0x7063_7374
    ||| kind == 0x7075_7264
    ||| kind == 0x7075_726C
    ||| kind == 0x7261_7465
    ||| kind == 0x736F_6161
    ||| kind == 0x736F_616C
    ||| kind == 0x736F_6172
    ||| kind == 0x736F_636F
    ||| kind == 0x736F_6E6D
    ||| kind == 0x7374_696B
    ||| kind == 0x746D_706F
    ||| kind == 0x7472_6B6E
    ||| kind == 0x7476_656E
    ||| kind == 0x7476_6573
    ||| kind == 0x7476_6E6E
    ||| kind == 0x7476_7368
    ||| kind == 0x7476_736E
    ||| kind == 0xA961_6C62
    ||| kind == 0xA941_5254
    ||| kind == 0xA963_6D74
    ||| kind == 0xA964_6179
    ||| kind == 0xA965_6E63
    ||| kind == 0xA967_656E
    ||| kind == 0xA967_7270
    ||| kind == 0xA96C_7972
    ||| kind == 0xA96E_616D
    ||| kind == 0xA974_6F6F
    ||| kind == 0xA977_7274
}

/// What the atom at `at` holds, if that is atoms which are read, and how many bytes of it come
/// before them.
pub open spec fn atoms_in(kind: Atoms, s: Seq<u8>, at: int) -> Option<(Atoms, int)> {
    match kind {
        Atoms::File => if is_atom(s, at, 0x6D, 0x6F, 0x6F, 0x76) {
            Some((Atoms::Movie, 0))
        } else if is_atom(s, at, 0x6D, 0x65, 0x74, 0x61) {
            Some((Atoms::Meta, 4))
        } else {
            None
        },
        Atoms::Movie => if is_atom(s, at, 0x74, 0x72, 0x61, 0x6B) {
            Some((Atoms::Track, 0))
        } else if is_atom(s, at, 0x6D, 0x76, 0x65, 0x78) {
            Some((Atoms::Extends, 0))
        } else if is_atom(s, at, 0x75, 0x64, 0x74, 0x61) {
            Some((Atoms::UserData, 0))
        } else {
            None
        },
        Atoms::Track => if is_atom(s, at, 0x6D, 0x64, 0x69, 0x61) {
            Some((Atoms::Media, 0))
        } else if is_atom(s, at, 0x65, 0x64, 0x74, 0x73) {
            Some((Atoms::Edits, 0))
        } else {
            None
        },
        Atoms::Media => if is_atom(s, at, 0x6D, 0x69, 0x6E, 0x66) {
            Some((Atoms::MediaInfo, 0))
        } else {
            None
        },
        Atoms::MediaInfo => if is_atom(s, at, 0x73, 0x74, 0x62, 0x6C) {
            Some((Atoms::SampleTable, 0))
        } else {
            None
        },
        Atoms::AudioEntry => if is_atom(s, at, 0x77, 0x61, 0x76, 0x65) {
            Some((Atoms::Wave, 0))
        } else {
            None
        },
        Atoms::UserData => if is_atom(s, at, 0x6D, 0x65, 0x74, 0x61) {
            Some((Atoms::Meta, 4))
        } else {
            None
        },
        Atoms::Meta => if is_atom(s, at, 0x69, 0x6C, 0x73, 0x74) {
            Some((Atoms::Tags, 0))
        } else {
            None
        },
        Atoms::Tags => if is_read_tag(number(s, at + 4, 4)) {
            Some((Atoms::Tag, 0))
        } else {
            None
        },
        _ => None,
    }
}

/// The `mdhd` payload from `from` to `end` has a time scale that is not zero.
pub open spec fn media_header_returns(s: Seq<u8>, from: int, end: int) -> bool {
    &&& from < end
    &&& if s[from] == 0 {
        from + 16 <= end && number(s, from + 12, 4) > 0
    } else {
        s[from] == 1 && from + 24 <= end && number(s, from + 20, 4) > 0
    }
}

/// The durations in the `stts` payload at `from`, from entry `k` of `count` on, can be added up
/// to `total`.
pub open spec fn durations_add_up(s: Seq<u8>, from: int, k: int, count: int, total: int) -> bool
    decreases count - k,
{
    let next = total + number(s, from + 8 + 8 * k, 4) * number(s, from + 12 + 8 * k, 4);
    k < count ==> next <= u64::MAX && durations_add_up(s, from, k + 1, count, next)
}

/// The samples in the chunks of the `stsc` payload at `from`, from entry `k` of `count` on, can be
/// counted, given the number of the first sample of that entry.
pub open spec fn chunks_add_up(s: Seq<u8>, from: int, k: int, count: int, first: int) -> bool
    decreases count - k,
{
    let chunk = number(s, from + 8 + 12 * k, 4);
    let next_chunk = number(s, from + 20 + 12 * k, 4);
    let next = first + (next_chunk - chunk) * number(s, from + 12 + 12 * k, 4);
    k < count ==> {
        &&& chunk > 0
        &&& k + 1 < count ==> next_chunk >= chunk && next <= u32::MAX && chunks_add_up(
            s,
            from,
            k + 1,
            count,
            next,
        )
    }
}

/// The table in the payload from `from` to `end`, of which `head` bytes come before its entries
/// and the last four of those count them, has all its entries of `size` bytes.
pub open spec fn table_fits(s: Seq<u8>, from: int, end: int, head: int, size: int) -> bool {
    from + head <= end && number(s, from + head - 4, 4) * size <= end - from - head
}

/// The length of the header of the descriptor at `at`, a tag and a length of up to four bytes, or
/// 0 if `end` comes before its end.
pub open spec fn descriptor_header_len(s: Seq<u8>, at: int, end: int) -> int {
    if at + 2 <= end && s[at + 1] < 128 {
        2
    } else if at + 3 <= end && s[at + 2] < 128 {
        3
    } else if at + 4 <= end && s[at + 3] < 128 {
        4
    } else if at + 5 <= end {
        5
    } else {
        0
    }
}

/// The length of the content of the descriptor at `at` whose header is `n` bytes long: 7 bits of
/// it in each byte of the header but the first.
pub open spec fn descriptor_len(s: Seq<u8>, at: int, n: int) -> int
    decreases n,
{
    if n <= 1 {
        0
    } else {
        descriptor_len(s, at, n - 1) * 128 + s[at + n - 1] % 128
    }
}

/// The descriptors from `at` to `end` inside of an elementary stream descriptor can be read.
pub open spec fn stream_content_returns(s: Seq<u8>, at: int, end: int) -> bool
    decreases end - at,
{
    let n = descriptor_header_len(s, at, end);
    let len = descriptor_len(s, at, n);
    let next = at + n + (if s[at] == 6 {
        1
    } else {
        len
    });
    if end - at <= 2 {
        true
    } else {
        &&& n > 0
        &&& s[at] == 4 ==> len >= 13
        &&& at < next <= end
        &&& stream_content_returns(s, next, end)
    }
}

/// Where the address of an elementary stream descriptor, whose flags stand at `flags`, would be.
pub open spec fn stream_url(s: Seq<u8>, flags: int) -> int {
    flags + 1 + (if s[flags] >= 128 {
        2int
    } else {
        0
    })
}

/// Where the content of an elementary stream descriptor goes on behind its optional fields, the
/// flags of which stand at `flags`.
pub open spec fn behind_optional_fields(s: Seq<u8>, flags: int) -> int {
    let url = stream_url(s, flags);
    url + (if s[flags] % 128 >= 64 {
        1 + s[url] as int
    } else {
        0
    }) + (if s[flags] % 64 >= 32 {
        2int
    } else {
        0
    })
}

/// The descriptors from `at` to `end` of an `esds` atom can be read, and one of an elementary
/// stream is among them or was `seen` before.
pub open spec fn descriptors_return(s: Seq<u8>, at: int, end: int, seen: bool) -> bool
    decreases end - at,
{
    let n = descriptor_header_len(s, at, end);
    let len = descriptor_len(s, at, n);
    let flags = at + n + 2;
    let behind = behind_optional_fields(s, flags);
    if end - at <= 2 {
        seen
    } else if n == 0 {
        false
    } else if s[at] == 3 {
        &&& len >= 3
        &&& flags < end
        &&& stream_url(s, flags) < end
        &&& at < behind
        &&& behind + len - 3 <= end
        &&& stream_content_returns(s, behind, behind + len - 3)
        &&& descriptors_return(s, behind + len - 3, end, true)
    } else {
        &&& at < at + n + len <= end
        &&& descriptors_return(s, at + n + len, end, seen)
    }
}

/// The sample entry at `at` is one of audio.
pub open spec fn is_audio_entry(s: Seq<u8>, at: int) -> bool {
    ||| is_atom(s, at, 0x6D, 0x70, 0x34, 0x61)
    ||| is_atom(s, at, 0x61, 0x6C, 0x61, 0x63)
    ||| is_atom(s, at, 0x66, 0x4C, 0x61, 0x43)
    ||| is_atom(s, at, 0x4F, 0x70, 0x75, 0x73)
    ||| is_atom(s, at, 0x2E, 0x6D, 0x70, 0x33)
    ||| is_atom(s, at, 0x6C, 0x70, 0x63, 0x6D)
    ||| is_atom(s, at, 0x77, 0x61, 0x76, 0x65)
    ||| is_atom(s, at, 0x61, 0x6C, 0x61, 0x77)
    ||| is_atom(s, at, 0x75, 0x6C, 0x61, 0x77)
    ||| is_atom(s, at, 0x72, 0x61, 0x77, 0x20)
    ||| is_atom(s, at, 0x73, 0x6F, 0x77, 0x74)
    ||| is_atom(s, at, 0x74, 0x77, 0x6F, 0x73)
    ||| is_atom(s, at, 0x69, 0x6E, 0x32, 0x34)
    ||| is_atom(s, at, 0x69, 0x6E, 0x33, 0x32)
    ||| is_atom(s, at, 0x66, 0x6C, 0x33, 0x32)
    ||| is_atom(s, at, 0x66, 0x6C, 0x36, 0x34)
}

/// How long the fields of an audio sample entry are, by its version.
pub open spec fn entry_fields_len(version: int) -> int {
    if version == 0 {
        28
    } else if version == 1 {
        44
    } else {
        64
    }
}

/// The payload from `from` to `end` of an atom that holds no atoms can be read.
pub open spec fn payload_returns(kind: Atoms, s: Seq<u8>, at: int, from: int, end: int) -> bool {
    match kind {
        Atoms::Media => {
            &&& is_atom(s, at, 0x6D, 0x64, 0x68, 0x64) ==> media_header_returns(s, from, end)
            &&& is_atom(s, at, 0x68, 0x64, 0x6C, 0x72) ==> end - from >= 24
        },
        Atoms::SampleTable => {
            &&& is_atom(s, at, 0x73, 0x74, 0x74, 0x73) ==> table_fits(s, from, end, 8, 8)
                && durations_add_up(s, from, 0, number(s, from + 4, 4), 0)
            &&& is_atom(s, at, 0x73, 0x74, 0x73, 0x63) ==> table_fits(s, from, end, 8, 12)
                && chunks_add_up(s, from, 0, number(s, from + 4, 4), 0)
            &&& is_atom(s, at, 0x73, 0x74, 0x73, 0x7A) ==> from + 12 <= end && (number(
                s,
                from + 4,
                4,
            ) == 0 ==> table_fits(s, from, end, 12, 4))
            &&& is_atom(s, at, 0x73, 0x74, 0x63, 0x6F) ==> table_fits(s, from, end, 8, 4)
            &&& is_atom(s, at, 0x63, 0x6F, 0x36, 0x34) ==> table_fits(s, from, end, 8, 8)
        },
        Atoms::AudioEntry | Atoms::Wave => is_atom(s, at, 0x65, 0x73, 0x64, 0x73) ==> end - from
            >= 4 && descriptors_return(s, from + 4, end, false),
        Atoms::Tag => {
            &&& is_atom(s, at, 0x64, 0x61, 0x74, 0x61) ==> end - from >= 8
            &&& is_atom(s, at, 0x6E, 0x61, 0x6D, 0x65) ==> end - from >= 4
            &&& is_atom(s, at, 0x6D, 0x65, 0x61, 0x6E) ==> end - from >= 4
        },
        _ => true,
    }
}

/// Where the payload of the atom at `at`, which ends at `end` and holds no atoms, is taken to end.
/// One that extends to the end of what it lies in counts as empty where its length is looked at.
pub open spec fn payload_end(kind: Atoms, s: Seq<u8>, at: int, end: int) -> int {
    if short_len(s, at) != 0 || kind == Atoms::SampleTable || is_atom(
        s,
        at,
        0x6D,
        0x64,
        0x68,
        0x64,
    ) {
        end
    } else {
        at + 8
    }
}

/// What the atom at `at`, which ends at `end`, holds can be read.
pub open spec fn atom_returns(kind: Atoms, s: Seq<u8>, at: int, end: int) -> bool
    decreases end - at, 0int,
{
    let from = at + header_len(s, at);
    if kind == Atoms::SampleTable && is_atom(s, at, 0x73, 0x74, 0x73, 0x64) {
        let entry = from + 8;
        let fields = entry + header_len(s, entry);
        let version = number(s, fields + 8, 2);
        let entry_end = entry + atom_len(s, entry, end);
        &&& entry + 8 <= end
        &&& is_audio_entry(s, entry) ==> {
            &&& short_len(s, entry) != 0
            &&& atom_fits(s, entry, end)
            &&& fields + 10 <= entry_end
            &&& version <= 2
            &&& is_atom(s, entry, 0x6C, 0x70, 0x63, 0x6D) ==> version == 2
            &&& fields + entry_fields_len(version) <= entry_end
            &&& at < fields
            &&& entry_end <= end
            &&& atoms_return(
                Atoms::AudioEntry,
                s,
                fields + entry_fields_len(version),
                entry_end,
            )
        }
    } else {
        match atoms_in(kind, s, at) {
            Some((inner, skipped)) => if short_len(s, at) == 0 {
                skipped == 0
            } else {
                from + skipped <= end && atoms_return(inner, s, from + skipped, end)
            },
            None => payload_returns(kind, s, at, from, payload_end(kind, s, at, end)),
        }
    }
}

/// The atom at `at` of a file is the last one that is read: what follows is audio, or an index
/// of it.
pub open spec fn is_last_atom(s: Seq<u8>, at: int) -> bool {
    ||| is_atom(s, at, 0x6D, 0x64, 0x61, 0x74)
    ||| is_atom(s, at, 0x6D, 0x6F, 0x6F, 0x66)
    ||| is_atom(s, at, 0x73, 0x69, 0x64, 0x78)
}

/// Where the last atom that is read ends can be counted in 64 bits, and so can the place that an
/// index says its first segment is at.
pub open spec fn last_atom_returns(s: Seq<u8>, at: int) -> bool {
    let from = at + header_len(s, at);
    &&& short_len(s, at) == 1 ==> at + 16 <= s.len() && s[at + 8] < 0x40
    &&& is_atom(s, at, 0x73, 0x69, 0x64, 0x78) ==> from + 21 <= s.len() && (s[from] == 1
        ==> s[from + 20] < 0x40)
}

/// The atoms from `at` to `end` of something of that kind can be read.
pub open spec fn atoms_return(kind: Atoms, s: Seq<u8>, at: int, end: int) -> bool
    decreases end - at, 1int,
{
    let next = at + atom_len(s, at, end);
    if at >= end {
        kind != Atoms::File
    } else if kind == Atoms::File && at + 8 <= end && is_last_atom(s, at) {
        last_atom_returns(s, at)
    } else {
        &&& atom_fits(s, at, end)
        &&& at < next <= end
        &&& atom_returns(kind, s, at, next)
        &&& atoms_return(kind, s, next, end)
    }
}

fn read_short_len(s: &[u8], at: usize) -> (r: u64)
    requires
        at + 8 <= s.len(),
    ensures
        r == short_len(s@, at as int),
        r <= 0xFFFF_FFFF,
{
    read_number(s, at, 4)
}

/// The length of the header and of the whole of the atom at `at`, if it lies before `end`.
fn read_atom_len(s: &[u8], at: usize, end: usize) -> (r: Option<(usize, usize)>)
    requires
        at < end <= s.len(),
    ensures
        match r {
            Some((header, len)) => {
                &&& atom_fits(s@, at as int, end as int)
                &&& header == header_len(s@, at as int)
                &&& len == atom_len(s@, at as int, end as int)
            },
            None => !atom_fits(s@, at as int, end as int),
        },
{
    if end - at < 8 {
        return None;
    }
    let short: u64 = read_short_len(s, at);
    if short == 0 {
        Some((8, end - at))
    } else if short == 1 {
        if end - at < 16 {
            return None;
        }
        let long: u64 = read_number(s, at + 8, 8);
        if long < 16 || long > (end - at) as u64 {
            return None;
        }
        Some((16, long as usize))
    } else {
        if short < 8 || short > (end - at) as u64 {
            return None;
        }
        Some((8, short as usize))
    }
}

fn has_atom(s: &[u8], at: usize, a: u8, b: u8, c: u8, d: u8) -> (r: bool)
    requires
        at + 8 <= s.len(),
    ensures
        r == is_atom(s@, at as int, a, b, c, d),
{
    has_tag(s, at + 4, a, b, c, d)
}

fn has_read_tag(s: &[u8], at: usize) -> (r: bool)
    requires
        at + 8 <= s.len(),
    ensures
        r == is_read_tag(number(s@, at + 4, 4)),
{
    let kind: u64 = read_number(s, at + 4, 4);
    kind == 0x2D2D_2D2D
        || kind == 0x6141_5254
        || kind == 0x6361_7467
        || kind == 0x636F_7672
        || kind == 0x6370_696C
        || kind == 0x6370_7274
        || kind == 0x6465_7363
        || kind == 0x6469_736B
        || kind == 0x6567_6964
        || kind == 0x676E_7265
        || kind == 0x6B65_7977
        || kind == 0x6C64_6573
        || kind == 0x6F77_6E72
        || kind == 0x7063_7374
        || kind == 0x7075_7264
        || kind == 0x7075_726C
        || kind == 0x7261_7465
        || kind == 0x736F_6161
        || kind == 0x736F_616C
        || kind == 0x736F_6172
        || kind == 0x736F_636F
        || kind == 0x736F_6E6D
        || kind == 0x7374_696B
        || kind == 0x746D_706F
        || kind == 0x7472_6B6E
        || kind == 0x7476_656E
        || kind == 0x7476_6573
        || kind == 0x7476_6E6E
        || kind == 0x7476_7368
        || kind == 0x7476_736E
        || kind == 0xA961_6C62
        || kind == 0xA941_5254
        || kind == 0xA963_6D74
        || kind == 0xA964_6179
        || kind == 0xA965_6E63
        || kind == 0xA967_656E
        || kind == 0xA967_7270
        || kind == 0xA96C_7972
        || kind == 0xA96E_616D
        || kind == 0xA974_6F6F
        || kind == 0xA977_7274
}

fn find_atoms_in(kind: Atoms, s: &[u8], at: usize) -> (r: Option<(Atoms, usize)>)
    requires
        at + 8 <= s.len(),
    ensures
        match r {
            Some((inner, skipped)) => {
                &&& atoms_in(kind, s@, at as int) == Some((inner, skipped as int))
                &&& skipped <= 4
            },
            None => atoms_in(kind, s@, at as int) is None,
        },
{
    match kind {
        Atoms::File => if has_atom(s, at, 0x6D, 0x6F, 0x6F, 0x76) {
            Some((Atoms::Movie, 0))
        } else if has_atom(s, at, 0x6D, 0x65, 0x74, 0x61) {
            Some((Atoms::Meta, 4))
        } else {
            None
        },
        Atoms::Movie => if has_atom(s, at, 0x74, 0x72, 0x61, 0x6B) {
            Some((Atoms::Track, 0))
        } else if has_atom(s, at, 0x6D, 0x76, 0x65, 0x78) {
            Some((Atoms::Extends, 0))
        } else if has_atom(s, at, 0x75, 0x64, 0x74, 0x61) {
            Some((Atoms::UserData, 0))
        } else {
            None
        },
        Atoms::Track => if has_atom(s, at, 0x6D, 0x64, 0x69, 0x61) {
            Some((Atoms::Media, 0))
        } else if has_atom(s, at, 0x65, 0x64, 0x74, 0x73) {
            Some((Atoms::Edits, 0))
        } else {
            None
        },
        Atoms::Media => if has_atom(s, at, 0x6D, 0x69, 0x6E, 0x66) {
            Some((Atoms::MediaInfo, 0))
        } else {
            None
        },
        Atoms::MediaInfo => if has_atom(s, at, 0x73, 0x74, 0x62, 0x6C) {
            Some((Atoms::SampleTable, 0))
        } else {
            None
        },
        Atoms::AudioEntry => if has_atom(s, at, 0x77, 0x61, 0x76, 0x65) {
            Some((Atoms::Wave, 0))
        } else {
            None
        },
        Atoms::UserData => if has_atom(s, at, 0x6D, 0x65, 0x74, 0x61) {
            Some((Atoms::Meta, 4))
        } else {
            None
        },
        Atoms::Meta => if has_atom(s, at, 0x69, 0x6C, 0x73, 0x74) {
            Some((Atoms::Tags, 0))
        } else {
            None
        },
        Atoms::Tags => if has_read_tag(s, at) {
            Some((Atoms::Tag, 0))
        } else {
            None
        },
        _ => None,
    }
}

fn check_media_header(s: &[u8], from: usize, end: usize) -> (r: bool)
    requires
        from <= end <= s.len(),
    ensures
        r == media_header_returns(s@, from as int, end as int),
{
    if from == end {
        false
    } else if s[from] == 0 {
        end - from >= 16 && read_number(s, from + 12, 4) > 0
    } else {
        s[from] == 1 && end - from >= 24 && read_number(s, from + 20, 4) > 0
    }
}

proof fn product_fits(a: int, b: int)
    requires
        0 <= a <= 0xFFFF_FFFF,
        0 <= b <= 0xFFFF_FFFF,
    ensures
        0 <= a * b <= 0xFFFF_FFFE_0000_0001,
{
    assert(0 <= a * b <= 0xFFFF_FFFE_0000_0001) by (nonlinear_arith)
        requires
            0 <= a <= 0xFFFF_FFFF,
            0 <= b <= 0xFFFF_FFFF,
    ;
}

/// The number of entries of the table in the payload from `from` to `end`, if all of them fit.
fn read_count(s: &[u8], from: usize, end: usize, head: usize, size: usize) -> (r: Option<usize>)
    requires
        from <= end <= s.len(),
        4 <= head <= 12,
        1 <= size <= 12,
    ensures
        match r {
            Some(count) => {
                &&& table_fits(s@, from as int, end as int, head as int, size as int)
                &&& count == number(s@, from + head - 4, 4)
                &&& from + head + count * size <= end
            },
            None => !table_fits(s@, from as int, end as int, head as int, size as int),
        },
{
    if end - from < head {
        return None;
    }
    let count: u64 = read_number(s, from + head - 4, 4);
    proof {
        product_fits(count as int, size as int);
    }
    if count * size as u64 > (end - from - head) as u64 {
        None
    } else {
        assert(count <= count * size) by (nonlinear_arith)
            requires
                size >= 1,
                count >= 0,
        ;
        Some(count as usize)
    }
}

fn check_durations(s: &[u8], from: usize, end: usize) -> (r: bool)
    requires
        from <= end <= s.len(),
    ensures
        r == (table_fits(s@, from as int, end as int, 8, 8) && durations_add_up(
            s@,
            from as int,
            0,
            number(s@, from + 4, 4),
            0,
        )),
{
    let count: usize = match read_count(s, from, end, 8, 8) {
        Some(count) => count,
        None => {
            return false;
        },
    };
    let mut total: u64 = 0;
    for k in 0..count
        invariant
            from + 8 + count * 8 <= end <= s.len(),
            count == number(s@, from + 4, 4),
            durations_add_up(s@, from as int, 0, count as int, 0) == durations_add_up(
                s@,
                from as int,
                k as int,
                count as int,
                total as int,
            ),
            table_fits(s@, from as int, end as int, 8, 8),
    {
        let samples: u64 = read_number(s, from + 8 + 8 * k, 4);
        let delta: u64 = read_number(s, from + 12 + 8 * k, 4);
        proof {
            product_fits(samples as int, delta as int);
        }
        match total.checked_add(samples * delta) {
            Some(sum) => {
                total = sum;
            },
            None => {
                return false;
            },
        }
    }
    true
}

fn check_chunks(s: &[u8], from: usize, end: usize) -> (r: bool)
    requires
        from <= end <= s.len(),
    ensures
        r == (table_fits(s@, from as int, end as int, 8, 12) && chunks_add_up(
            s@,
            from as int,
            0,
            number(s@, from + 4, 4),
            0,
        )),
{
    let count: usize = match read_count(s, from, end, 8, 12) {
        Some(count) => count,
        None => {
            return false;
        },
    };
    let mut first: u64 = 0;
    for k in 0..count
        invariant
            from + 8 + count * 12 <= end <= s.len(),
            count == number(s@, from + 4, 4),
            first <= u32::MAX,
            chunks_add_up(s@, from as int, 0, count as int, 0) == chunks_add_up(
                s@,
                from as int,
                k as int,
                count as int,
                first as int,
            ),
            table_fits(s@, from as int, end as int, 8, 12),
    {
        let chunk: u64 = read_number(s, from + 8 + 12 * k, 4);
        if chunk == 0 {
            return false;
        }
        if k + 1 == count {
            return true;
        }
        let samples: u64 = read_number(s, from + 12 + 12 * k, 4);
        let next_chunk: u64 = read_number(s, from + 20 + 12 * k, 4);
        if next_chunk < chunk {
            return false;
        }
        proof {
            product_fits(next_chunk - chunk, samples as int);
        }
        let sum: u64 = first + (next_chunk - chunk) * samples;
        if sum > 0xFFFF_FFFF {
            return false;
        }
        first = sum;
    }
    true
}

fn read_descriptor_header_len(s: &[u8], at: usize, end: usize) -> (r: usize)
    requires
        at < end <= s.len(),
    ensures
        r == descriptor_header_len(s@, at as int, end as int),
        r <= end - at,
        r == 0 || 2 <= r <= 5,
{
    let left: usize = end - at;
    if left >= 2 && s[at + 1] < 128 {
        2
    } else if left >= 3 && s[at + 2] < 128 {
        3
    } else if left >= 4 && s[at + 3] < 128 {
        4
    } else if left >= 5 {
        5
    } else {
        0
    }
}

fn read_descriptor_len(s: &[u8], at: usize, n: usize) -> (r: usize)
    requires
        at + n <= s.len(),
        2 <= n <= 5,
    ensures
        r == descriptor_len(s@, at as int, n as int),
        r < 0x1000_0000,
{
    let mut len: usize = 0;
    let mut k: usize = 1;
    while k < n
        invariant
            at + n <= s.len(),
            1 <= k <= n <= 5,
            len == descriptor_len(s@, at as int, k as int),
            k == 1 ==> len < 1,
            k == 2 ==> len < 0x80,
            k == 3 ==> len < 0x4000,
            k == 4 ==> len < 0x20_0000,
            k == 5 ==> len < 0x1000_0000,
        decreases n - k,
    {
        len = len * 128 + (s[at + k] % 128) as usize;
        k = k + 1;
    }
    len
}

fn check_stream_content(s: &[u8], start: usize, end: usize) -> (r: bool)
    requires
        start <= end <= s.len(),
    ensures
        r == stream_content_returns(s@, start as int, end as int),
{
    let mut at: usize = start;
    while end - at > 2
        invariant
            start <= at <= end <= s.len(),
            stream_content_returns(s@, start as int, end as int) == stream_content_returns(
                s@,
                at as int,
                end as int,
            ),
        decreases end - at,
    {
        let n: usize = read_descriptor_header_len(s, at, end);
        if n == 0 {
            return false;
        }
        let len: usize = read_descriptor_len(s, at, n);
        if s[at] == 4 && len < 13 {
            return false;
        }
        let used: usize = if s[at] == 6 {
            1
        } else {
            len
        };
        if used > end - at - n {
            return false;
        }
        at = at + n + used;
    }
    true
}

/// Where the content of an elementary stream descriptor goes on behind its optional fields, if that
/// is there.
fn read_behind_optional_fields(s: &[u8], flags: usize, end: usize) -> (r: Option<usize>)
    requires
        flags < end <= s.len(),
    ensures
        match r {
            Some(behind) => {
                &&& stream_url(s@, flags as int) < end
                &&& behind == behind_optional_fields(s@, flags as int)
                &&& flags < behind <= end
            },
            None => stream_url(s@, flags as int) >= end || behind_optional_fields(
                s@,
                flags as int,
            ) > end,
        },
{
    let depends: usize = if s[flags] >= 128 {
        2
    } else {
        0
    };
    if end - flags <= 1 + depends {
        return None;
    }
    let url: usize = flags + 1 + depends;
    let address: usize = if s[flags] % 128 >= 64 {
        1 + s[url] as usize
    } else {
        0
    };
    let clock: usize = if s[flags] % 64 >= 32 {
        2
    } else {
        0
    };
    if address + clock > end - url {
        return None;
    }
    Some(url + address + clock)
}

fn check_descriptors(s: &[u8], start: usize, end: usize) -> (r: bool)
    requires
        start <= end <= s.len(),
    ensures
        r == descriptors_return(s@, start as int, end as int, false),
{
    let mut at: usize = start;
    let mut seen = false;
    while end - at > 2
        invariant
            start <= at <= end <= s.len(),
            descriptors_return(s@, start as int, end as int, false) == descriptors_return(
                s@,
                at as int,
                end as int,
                seen,
            ),
        decreases end - at,
    {
        let n: usize = read_descriptor_header_len(s, at, end);
        if n == 0 {
            return false;
        }
        let len: usize = read_descriptor_len(s, at, n);
        if s[at] != 3 {
            if len > end - at - n {
                return false;
            }
            at = at + n + len;
        } else {
            if len < 3 || end - at - n < 3 {
                return false;
            }
            let behind: usize = match read_behind_optional_fields(s, at + n + 2, end) {
                Some(behind) => behind,
                None => {
                    return false;
                },
            };
            if len - 3 > end - behind {
                return false;
            }
            if !check_stream_content(s, behind, behind + (len - 3)) {
                return false;
            }
            at = behind + (len - 3);
            seen = true;
        }
    }
    seen
}

fn has_audio_entry(s: &[u8], at: usize) -> (r: bool)
    requires
        at + 8 <= s.len(),
    ensures
        r == is_audio_entry(s@, at as int),
{
    has_atom(s, at, 0x6D, 0x70, 0x34, 0x61) || has_atom(s, at, 0x61, 0x6C, 0x61, 0x63) || has_atom(
        s,
        at,
        0x66,
        0x4C,
        0x61,
        0x43,
    ) || has_atom(s, at, 0x4F, 0x70, 0x75, 0x73) || has_atom(s, at, 0x2E, 0x6D, 0x70, 0x33)
        || has_atom(s, at, 0x6C, 0x70, 0x63, 0x6D) || has_atom(s, at, 0x77, 0x61, 0x76, 0x65)
        || has_atom(s, at, 0x61, 0x6C, 0x61, 0x77) || has_atom(s, at, 0x75, 0x6C, 0x61, 0x77)
        || has_atom(s, at, 0x72, 0x61, 0x77, 0x20) || has_atom(s, at, 0x73, 0x6F, 0x77, 0x74)
        || has_atom(s, at, 0x74, 0x77, 0x6F, 0x73) || has_atom(s, at, 0x69, 0x6E, 0x32, 0x34)
        || has_atom(s, at, 0x69, 0x6E, 0x33, 0x32) || has_atom(s, at, 0x66, 0x6C, 0x33, 0x32)
        || has_atom(s, at, 0x66, 0x6C, 0x36, 0x34)
}

fn check_sample_table(s: &[u8], at: usize, from: usize, end: usize) -> (r: bool)
    requires
        at + 8 <= s.len(),
        from <= end <= s.len(),
    ensures
        r == payload_returns(Atoms::SampleTable, s@, at as int, from as int, end as int),
{
    if has_atom(s, at, 0x73, 0x74, 0x74, 0x73) {
        check_durations(s, from, end)
    } else if has_atom(s, at, 0x73, 0x74, 0x73, 0x63) {
        check_chunks(s, from, end)
    } else if has_atom(s, at, 0x73, 0x74, 0x73, 0x7A) {
        end - from >= 12 && (read_number(s, from + 4, 4) != 0 || read_count(
            s,
            from,
            end,
            12,
            4,
        ).is_some())
    } else if has_atom(s, at, 0x73, 0x74, 0x63, 0x6F) {
        read_count(s, from, end, 8, 4).is_some()
    } else if has_atom(s, at, 0x63, 0x6F, 0x36, 0x34) {
        read_count(s, from, end, 8, 8).is_some()
    } else {
        true
    }
}

fn check_payload(kind: Atoms, s: &[u8], at: usize, from: usize, end: usize) -> (r: bool)
    requires
        at + 8 <= s.len(),
        from <= end <= s.len(),
    ensures
        r == payload_returns(kind, s@, at as int, from as int, end as int),
{
    match kind {
        Atoms::Media => if has_atom(s, at, 0x6D, 0x64, 0x68, 0x64) {
            check_media_header(s, from, end)
        } else {
            !has_atom(s, at, 0x68, 0x64, 0x6C, 0x72) || end - from >= 24
        },
        Atoms::SampleTable => check_sample_table(s, at, from, end),
        Atoms::AudioEntry | Atoms::Wave => !has_atom(s, at, 0x65, 0x73, 0x64, 0x73) || (end - from
            >= 4 && check_descriptors(s, from + 4, end)),
        Atoms::Tag => if has_atom(s, at, 0x64, 0x61, 0x74, 0x61) {
            end - from >= 8
        } else {
            !(has_atom(s, at, 0x6E, 0x61, 0x6D, 0x65) || has_atom(s, at, 0x6D, 0x65, 0x61, 0x6E))
                || end - from >= 4
        },
        _ => true,
    }
}

fn check_last_atom(s: &[u8], at: usize) -> (r: bool)
    requires
        at + 8 <= s.len(),
    ensures
        r == last_atom_returns(s@, at as int),
{
    let long = read_short_len(s, at) == 1;
    if long && (s.len() - at < 16 || s[at + 8] >= 0x40) {
        return false;
    }
    if !has_atom(s, at, 0x73, 0x69, 0x64, 0x78) {
        return true;
    }
    let from: usize = if long {
        at + 16
    } else {
        at + 8
    };
    s.len() - from >= 21 && (s[from] != 1 || s[from + 20] < 0x40)
}

/// Where the atoms that an audio sample entry at `entry` holds begin and end, if it can be read
/// up to there.
fn read_audio_entry(s: &[u8], entry: usize, end: usize) -> (r: Option<(usize, usize)>)
    requires
        entry + 8 <= end <= s.len(),
    ensures
        ({
            let at = entry as int;
            let fields = at + header_len(s@, at);
            let version = number(s@, fields + 8, 2);
            let entry_end = at + atom_len(s@, at, end as int);
            let readable = {
                &&& short_len(s@, at) != 0
                &&& atom_fits(s@, at, end as int)
                &&& fields + 10 <= entry_end
                &&& version <= 2
                &&& is_atom(s@, at, 0x6C, 0x70, 0x63, 0x6D) ==> version == 2
                &&& fields + entry_fields_len(version) <= entry_end
                &&& entry_end <= end
            };
            match r {
                Some((from, to)) => {
                    &&& readable
                    &&& from == fields + entry_fields_len(version)
                    &&& to == entry_end
                },
                None => !readable,
            }
        }),
{
    if read_short_len(s, entry) == 0 {
        return None;
    }
    let (header, len): (usize, usize) = match read_atom_len(s, entry, end) {
        Some(lens) => lens,
        None => {
            return None;
        },
    };
    let fields: usize = entry + header;
    let entry_end: usize = entry + len;
    if entry_end - fields < 10 {
        return None;
    }
    let version: u64 = read_number(s, fields + 8, 2);
    if version > 2 || (has_atom(s, entry, 0x6C, 0x70, 0x63, 0x6D) && version != 2) {
        return None;
    }
    let fields_len: usize = if version == 0 {
        28
    } else if version == 1 {
        44
    } else {
        64
    };
    if entry_end - fields < fields_len {
        return None;
    }
    Some((fields + fields_len, entry_end))
}

fn check_atom(kind: Atoms, s: &[u8], at: usize, end: usize) -> (r: bool)
    requires
        at + header_len(s@, at as int) <= end <= s.len(),
    ensures
        r == atom_returns(kind, s@, at as int, end as int),
    decreases end - at, 0int,
{
    let short: u64 = read_short_len(s, at);
    let from: usize = if short == 1 {
        at + 16
    } else {
        at + 8
    };
    let describes_samples = kind == Atoms::SampleTable && has_atom(s, at, 0x73, 0x74, 0x73, 0x64);
    if describes_samples {
        if end - from < 16 {
            return false;
        }
        let entry: usize = from + 8;
        if !has_audio_entry(s, entry) {
            return true;
        }
        match read_audio_entry(s, entry, end) {
            Some((start, stop)) => check_atoms(Atoms::AudioEntry, s, start, stop),
            None => false,
        }
    } else {
        match find_atoms_in(kind, s, at) {
            Some((inner, skipped)) => if short == 0 {
                skipped == 0
            } else {
                end - from >= skipped && check_atoms(inner, s, from + skipped, end)
            },
            None => {
                let counts = short != 0 || kind == Atoms::SampleTable || has_atom(
                    s,
                    at,
                    0x6D,
                    0x64,
                    0x68,
                    0x64,
                );
                let stop: usize = if counts {
                    end
                } else {
                    from
                };
                check_payload(kind, s, at, from, stop)
            },
        }
    }
}

/// Checks the atoms from `start` to `end` of something of that kind.
pub(crate) fn check_atoms(kind: Atoms, s: &[u8], start: usize, end: usize) -> (r: bool)
    requires
        start <= end <= s.len(),
    ensures
        r == atoms_return(kind, s@, start as int, end as int),
    decreases end - start, 1int,
{
    let mut at: usize = start;
    while at < end
        invariant
            start <= at <= end <= s.len(),
            atoms_return(kind, s@, start as int, end as int) == atoms_return(
                kind,
                s@,
                at as int,
                end as int,
            ),
        decreases end - at,
    {
        if kind == Atoms::File && end - at >= 8 && (has_atom(s, at, 0x6D, 0x64, 0x61, 0x74)
            || has_atom(s, at, 0x6D, 0x6F, 0x6F, 0x66) || has_atom(s, at, 0x73, 0x69, 0x64, 0x78)) {
            return check_last_atom(s, at);
        }
        let len: usize = match read_atom_len(s, at, end) {
            Some((_, len)) => len,
            None => {
                return false;
            },
        };
        if !check_atom(kind, s, at, at + len) {
            return false;
        }
        at = at + len;
    }
    kind != Atoms::File
}

} // verus!
