//! WAVE and AIFF: chunks with a tag and a length.
use vstd::arithmetic::power2::{lemma2_to64, lemma2_to64_rest, lemma_pow2_unfold, pow2};
use vstd::prelude::*;

use crate::container::bytes::{
    has_tag, le16, le32, number, read_le16, read_le32, read_number, tag_at,
};

verus! {

/// The sizes that a block of compressed audio can have of which `overhead` bytes per channel
/// are its header: at least the headers, and not so large that 16 bits cannot count its samples.
pub open spec fn block_size_fits(block_size: int, channels: int, overhead: int) -> bool {
    &&& 1 <= channels <= 26
    &&& overhead * channels <= block_size
    &&& (block_size - overhead * channels) * 8 <= 0xFFFF
}

/// The number of ones among the binary digits of `x`.
pub open spec fn ones(x: int) -> int
    decreases x,
{
    if x <= 0 {
        0
    } else {
        x % 2 + ones(x / 2)
    }
}

/// A mask of 32 speakers can be made one of as many as there are channels: missing ones are added
/// above those in use, for which there is no place above the last.
pub open spec fn mask_fits(mask: int, channels: int) -> bool {
    channels <= ones(mask) || (channels - ones(mask) < 32 && mask < 0x8000_0000)
}

/// How many bytes of the `fmt ` chunk at `at` are read, if it can be: the rate is not zero, the
/// chunk has the length and the extension that its format needs, the blocks of a compressed format
/// have room for their headers, and the channels of the extensible format can be told apart.
pub open spec fn wave_format_read(s: Seq<u8>, at: int) -> Option<int> {
    let len = le32(s, at + 4);
    let format = le16(s, at + 8);
    let channels = le16(s, at + 10);
    let block_size = le16(s, at + 20);
    let bits = le16(s, at + 22);
    let extension = le16(s, at + 24);
    if at + 24 > s.len() || le32(s, at + 12) == 0 {
        None
    } else if format == 1 || format == 3 {
        if len == 16 || len == 18 || len == 40 {
            Some(len)
        } else {
            None
        }
    } else if at + 26 > s.len() {
        None
    } else if format == 6 || format == 7 {
        if len == 18 {
            Some(18 + extension)
        } else {
            None
        }
    } else if format == 2 || format == 0x11 {
        if len >= 20 && bits == 4 && (if format == 2 {
            extension >= 32 && block_size_fits(block_size, channels, 7)
        } else {
            extension == 2 && block_size_fits(block_size, channels, 4)
        }) {
            Some(18 + extension)
        } else {
            None
        }
    } else if format == 0xFFFE {
        if at + 32 <= s.len() && len >= 40 && extension == 22 && bits > 0 && mask_fits(
            le32(s, at + 28),
            channels,
        ) {
            Some(40)
        } else {
            None
        }
    } else {
        None
    }
}

/// How many bytes are read of a list of `n` bytes that begins at `from`, of which `taken` were
/// taken before, if it can be: the chunks in it, each at an even place, then what is left, and one
/// byte more if their number is odd.
pub open spec fn info_read(s: Seq<u8>, from: int, n: int, taken: int) -> Option<int>
    decreases n - taken,
{
    let chunk = taken + taken % 2;
    let len = le32(s, from + chunk + 4);
    if taken < 0 || chunk + 8 > n {
        Some((if chunk > n {
            chunk
        } else {
            n
        }) + n % 2)
    } else if len > n - (chunk + 8) {
        None
    } else {
        info_read(s, from, n, chunk + 8 + len)
    }
}

/// How many bytes of the `LIST` chunk at `at` are read, if it can be.
pub open spec fn list_read(s: Seq<u8>, at: int) -> Option<int> {
    let len = le32(s, at + 4);
    if len < 4 || at + 8 + len > s.len() {
        None
    } else if tag_at(s, at + 8, 0x49, 0x4E, 0x46, 0x4F) {
        match info_read(s, at + 12, len - 4, 0) {
            Some(n) => Some(4 + n),
            None => None,
        }
    } else {
        Some(len + len % 2)
    }
}

/// The 80-bit floating point number at `at` is one or more.
pub open spec fn is_one_or_more(s: Seq<u8>, at: int) -> bool {
    let exponent = number(s, at, 2);
    let fraction = number(s, at + 2, 8);
    if exponent >= 0x7FFF {
        exponent == 0x7FFF && fraction == 0
    } else {
        &&& exponent >= 16383
        &&& fraction >= (if exponent - 16383 <= 63 {
            pow2((63 - (exponent - 16383)) as nat)
        } else {
            1
        })
    }
}

/// How many bytes of the `COMM` chunk at `at` are read, if it can be: the rate is one or more, and
/// the length of the name of a compression, with one more byte, can be counted in 8 bits.
pub open spec fn aiff_common_read(s: Seq<u8>, at: int, compressed: bool) -> Option<int> {
    if at + 26 > s.len() || !is_one_or_more(s, at + 16) {
        None
    } else if !compressed {
        Some(18)
    } else if at + 31 > s.len() || s[at + 30] == 255 {
        None
    } else {
        Some(24 + s[at + 30] - s[at + 30] % 2)
    }
}

/// The kind of a file made of chunks.
#[derive(Debug, Clone, Copy, PartialEq, Eq, Structural)]
pub enum Chunked {
    /// WAVE.
    Wave,
    /// AIFF.
    Aiff,
    /// AIFF with compressed audio.
    AiffCompressed,
}

/// The length in the header of the chunk at `at`.
pub open spec fn chunk_len(kind: Chunked, s: Seq<u8>, at: int) -> int {
    if kind == Chunked::Wave {
        le32(s, at + 4)
    } else {
        number(s, at + 4, 4)
    }
}

/// The chunk at `at` holds the audio: what comes before it describes the file.
pub open spec fn is_audio_chunk(kind: Chunked, s: Seq<u8>, at: int) -> bool {
    if kind == Chunked::Wave {
        tag_at(s, at, 0x64, 0x61, 0x74, 0x61)
    } else {
        tag_at(s, at, 0x53, 0x53, 0x4E, 0x44)
    }
}

/// How many bytes of the chunk at `at`, which comes before the audio, are read or skipped, if it
/// can be.
pub open spec fn chunk_read(kind: Chunked, s: Seq<u8>, at: int) -> Option<int> {
    let len = chunk_len(kind, s, at);
    if kind == Chunked::Wave {
        if tag_at(s, at, 0x66, 0x6D, 0x74, 0x20) {
            wave_format_read(s, at)
        } else if tag_at(s, at, 0x66, 0x61, 0x63, 0x74) {
            if len == 4 {
                Some(4)
            } else {
                None
            }
        } else if tag_at(s, at, 0x4C, 0x49, 0x53, 0x54) {
            list_read(s, at)
        } else {
            Some(len)
        }
    } else if tag_at(s, at, 0x43, 0x4F, 0x4D, 0x4D) {
        aiff_common_read(s, at, kind == Chunked::AiffCompressed)
    } else {
        Some(len)
    }
}

/// The chunks from `at` on can be read up to the audio, where `taken` of `len` bytes of chunks were
/// taken before. Chunks are counted by their length, which is not always what is read of them, and
/// each is counted from an even number on; the count fits in 32 bits.
pub open spec fn chunks_return(kind: Chunked, s: Seq<u8>, at: int, taken: int, len: int) -> bool
    decreases s.len() - at,
{
    let start = at + taken % 2;
    let counted = taken + taken % 2 + 8;
    let n = chunk_len(kind, s, start);
    if at < 0 || taken < 0 || start + 8 > s.len() || counted > len {
        false
    } else if is_audio_chunk(kind, s, start) {
        n <= len - counted || (len == 0xFFFF_FFFF && n == 0xFFFF_FFFF)
    } else {
        &&& n <= len - counted
        &&& counted + n <= 0xFFFF_FFF0
        &&& chunk_read(kind, s, start) matches Some(read) && at < start + 8 + read <= s.len()
            && chunks_return(kind, s, start + 8 + read, counted + n, len)
    }
}

/// Recognition of the WAVE or AIFF file that starts at `start` comes to an end.
pub open spec fn riff_returns(s: Seq<u8>, start: int, wave: bool) -> bool {
    let kind = if wave {
        Chunked::Wave
    } else if tag_at(s, start + 8, 0x41, 0x49, 0x46, 0x43) {
        Chunked::AiffCompressed
    } else {
        Chunked::Aiff
    };
    &&& start + 12 <= s.len()
    &&& chunks_return(kind, s, start + 12, 0, chunk_len(kind, s, start))
}

proof fn ones_are_digits(x: int)
    requires
        0 <= x <= 0xFFFF_FFFF,
    ensures
        0 <= ones(x) <= x,
    decreases x,
{
    if x > 0 {
        ones_are_digits(x / 2);
    }
}

fn check_mask(mask: u32, channels: u32) -> (r: bool)
    ensures
        r == mask_fits(mask as int, channels as int),
{
    let mut rest: u32 = mask;
    let mut counted: u32 = 0;
    proof {
        ones_are_digits(mask as int);
    }
    while rest > 0
        invariant
            counted + ones(rest as int) == ones(mask as int),
            0 <= ones(rest as int),
            ones(mask as int) <= mask,
        decreases rest,
    {
        proof {
            ones_are_digits(rest as int / 2);
        }
        counted = counted + rest % 2;
        rest = rest / 2;
    }
    channels <= counted || (channels - counted < 32 && mask < 0x8000_0000)
}

fn check_block_size(block_size: u32, channels: u32, overhead: u32) -> (r: bool)
    requires
        overhead <= 7,
        block_size < 65536,
    ensures
        r == block_size_fits(block_size as int, channels as int, overhead as int),
{
    if channels < 1 || channels > 26 {
        return false;
    }
    assert(overhead * channels <= 7 * 26) by (nonlinear_arith)
        requires
            overhead <= 7,
            channels <= 26,
    ;
    let headers: u32 = overhead * channels;
    headers <= block_size && (block_size - headers) * 8 <= 0xFFFF
}

fn read_wave_format(s: &[u8], at: usize) -> (r: Option<usize>)
    requires
        at < s.len(),
    ensures
        match r {
            Some(n) => wave_format_read(s@, at as int) == Some(n as int) && n < 0x1_0100,
            None => wave_format_read(s@, at as int) is None,
        },
{
    if s.len() - at < 24 || read_le32(s, at + 12) == 0 {
        return None;
    }
    let len: u32 = read_le32(s, at + 4);
    let format: u32 = read_le16(s, at + 8);
    let channels: u32 = read_le16(s, at + 10);
    let bits: u32 = read_le16(s, at + 22);
    if format == 1 || format == 3 {
        return if len == 16 || len == 18 || len == 40 {
            Some(len as usize)
        } else {
            None
        };
    }
    if s.len() - at < 26 {
        return None;
    }
    let extension: u32 = read_le16(s, at + 24);
    if format == 6 || format == 7 {
        if len == 18 {
            Some(18 + extension as usize)
        } else {
            None
        }
    } else if format == 2 || format == 0x11 {
        let block_size: u32 = read_le16(s, at + 20);
        let fits = if format == 2 {
            extension >= 32 && check_block_size(block_size, channels, 7)
        } else {
            extension == 2 && check_block_size(block_size, channels, 4)
        };
        if len >= 20 && bits == 4 && fits {
            Some(18 + extension as usize)
        } else {
            None
        }
    } else if format == 0xFFFE {
        if s.len() - at >= 32 && len >= 40 && extension == 22 && bits > 0 && check_mask(
            read_le32(s, at + 28),
            channels,
        ) {
            Some(40)
        } else {
            None
        }
    } else {
        None
    }
}

fn read_info(s: &[u8], from: usize, n: usize) -> (r: Option<usize>)
    requires
        12 <= from,
        from + n <= s.len(),
        n < 0x1_0000_0000,
    ensures
        match r {
            Some(read) => info_read(s@, from as int, n as int, 0) == Some(read as int) && n <= read
                <= n + 2,
            None => info_read(s@, from as int, n as int, 0) is None,
        },
{
    let mut taken: usize = 0;
    loop
        invariant
            12 <= from,
            from + n <= s.len(),
            taken <= n < 0x1_0000_0000,
            info_read(s@, from as int, n as int, 0) == info_read(
                s@,
                from as int,
                n as int,
                taken as int,
            ),
        decreases n - taken,
    {
        let pad: usize = taken % 2;
        if n - taken < pad + 8 {
            let end: usize = if pad > n - taken {
                1
            } else {
                0
            };
            return Some(n + end + n % 2);
        }
        let chunk: usize = taken + pad;
        let len: u32 = read_le32(s, from + chunk + 4);
        if len as u64 > (n - (chunk + 8)) as u64 {
            return None;
        }
        taken = chunk + 8 + len as usize;
    }
}

fn read_list(s: &[u8], at: usize) -> (r: Option<usize>)
    requires
        at + 8 <= s.len(),
    ensures
        match r {
            Some(n) => list_read(s@, at as int) == Some(n as int),
            None => list_read(s@, at as int) is None,
        },
{
    let len: u32 = read_le32(s, at + 4);
    if len < 4 || len as u64 > (s.len() - at - 8) as u64 {
        return None;
    }
    let n: usize = len as usize;
    if has_tag(s, at + 8, 0x49, 0x4E, 0x46, 0x4F) {
        match read_info(s, at + 12, n - 4) {
            Some(read) => Some(4 + read),
            None => None,
        }
    } else {
        Some(n + n % 2)
    }
}

fn check_one_or_more(s: &[u8], at: usize) -> (r: bool)
    requires
        at + 10 <= s.len(),
    ensures
        r == is_one_or_more(s@, at as int),
{
    let exponent: u64 = read_number(s, at, 2);
    let fraction: u64 = read_number(s, at + 2, 8);
    if exponent >= 0x7FFF {
        return exponent == 0x7FFF && fraction == 0;
    }
    if exponent < 16383 {
        return false;
    }
    let places: u64 = exponent - 16383;
    if places > 63 {
        return fraction >= 1;
    }
    proof {
        lemma2_to64();
        lemma2_to64_rest();
    }
    let mut least: u64 = 0x8000_0000_0000_0000;
    let mut k: u64 = 0;
    while k < places
        invariant
            k <= places <= 63,
            least == pow2((63 - k) as nat),
        decreases places - k,
    {
        proof {
            lemma_pow2_unfold((63 - k) as nat);
        }
        least = least / 2;
        k = k + 1;
    }
    fraction >= least
}

fn read_aiff_common(s: &[u8], at: usize, compressed: bool) -> (r: Option<usize>)
    requires
        at < s.len(),
    ensures
        match r {
            Some(n) => aiff_common_read(s@, at as int, compressed) == Some(n as int) && n
                < 0x1_0100,
            None => aiff_common_read(s@, at as int, compressed) is None,
        },
{
    if s.len() - at < 26 || !check_one_or_more(s, at + 16) {
        return None;
    }
    if !compressed {
        return Some(18);
    }
    if s.len() - at < 31 || s[at + 30] == 255 {
        return None;
    }
    let name: usize = s[at + 30] as usize;
    Some(24 + name - name % 2)
}

fn read_chunk_len(kind: Chunked, s: &[u8], at: usize) -> (r: u64)
    requires
        at + 8 <= s.len(),
    ensures
        r == chunk_len(kind, s@, at as int),
        r <= 0xFFFF_FFFF,
{
    if kind == Chunked::Wave {
        read_le32(s, at + 4) as u64
    } else {
        read_number(s, at + 4, 4)
    }
}

fn read_chunk(kind: Chunked, s: &[u8], at: usize) -> (r: Option<u64>)
    requires
        at + 8 <= s.len(),
    ensures
        match r {
            Some(n) => chunk_read(kind, s@, at as int) == Some(n as int),
            None => chunk_read(kind, s@, at as int) is None,
        },
{
    let len: u64 = read_chunk_len(kind, s, at);
    let read: Option<usize> = if kind == Chunked::Wave {
        if has_tag(s, at, 0x66, 0x6D, 0x74, 0x20) {
            read_wave_format(s, at)
        } else if has_tag(s, at, 0x66, 0x61, 0x63, 0x74) {
            if len == 4 {
                Some(4)
            } else {
                None
            }
        } else if has_tag(s, at, 0x4C, 0x49, 0x53, 0x54) {
            read_list(s, at)
        } else {
            return Some(len);
        }
    } else if has_tag(s, at, 0x43, 0x4F, 0x4D, 0x4D) {
        read_aiff_common(s, at, kind == Chunked::AiffCompressed)
    } else {
        return Some(len);
    };
    match read {
        Some(n) => Some(n as u64),
        None => None,
    }
}

/// Checks the WAVE or AIFF file that starts at `start`.
pub(crate) fn check_riff(s: &[u8], start: usize, wave: bool) -> (r: bool)
    requires
        start <= s.len(),
    ensures
        r == riff_returns(s@, start as int, wave),
{
    if s.len() - start < 12 {
        return false;
    }
    let kind = if wave {
        Chunked::Wave
    } else if has_tag(s, start + 8, 0x41, 0x49, 0x46, 0x43) {
        Chunked::AiffCompressed
    } else {
        Chunked::Aiff
    };
    let len: u64 = read_chunk_len(kind, s, start);
    let mut at: usize = start + 12;
    let mut taken: u64 = 0;
    loop
        invariant
            at <= s.len(),
            len <= 0xFFFF_FFFF,
            taken <= 0xFFFF_FFF0,
            riff_returns(s@, start as int, wave) == chunks_return(
                kind,
                s@,
                at as int,
                taken as int,
                len as int,
            ),
        decreases s.len() - at,
    {
        let pad: u64 = taken % 2;
        if s.len() - at < 8 + pad as usize {
            return false;
        }
        let chunk: usize = at + pad as usize;
        let counted: u64 = taken + pad + 8;
        if counted > len {
            return false;
        }
        let n: u64 = read_chunk_len(kind, s, chunk);
        let is_audio = if kind == Chunked::Wave {
            has_tag(s, chunk, 0x64, 0x61, 0x74, 0x61)
        } else {
            has_tag(s, chunk, 0x53, 0x53, 0x4E, 0x44)
        };
        if is_audio {
            return n <= len - counted || (len == 0xFFFF_FFFF && n == 0xFFFF_FFFF);
        }
        if n > len - counted || counted + n > 0xFFFF_FFF0 {
            return false;
        }
        let read: u64 = match read_chunk(kind, s, chunk) {
            Some(read) => read,
            None => {
                return false;
            },
        };
        if read > (s.len() - chunk - 8) as u64 {
            return false;
        }
        at = chunk + 8 + read as usize;
        taken = counted + n;
    }
}

} // verus!
