//! Laws of WAVE and AIFF files: which of them can be probed, and that the length of the audio makes
//! no difference.
use vstd::arithmetic::power2::{lemma2_to64_rest, lemma_pow2_strictly_increases};
use vstd::prelude::*;

use crate::container::bytes::{le16, le32, number, number_from};
use crate::container::can_be_probed;
use crate::container::riff::{
    aiff_common_read, chunk_len, chunk_read, chunks_return, info_read, is_one_or_more, list_read,
    mask_fits, ones, riff_returns, wave_format_read, Chunked,
};
use crate::laws::containers::{
    containers_are_told_by_their_first_bytes, no_marker_before, reads,
    search_goes_to_the_first_marker,
};

verus! {

/// The numbers in the headers of a WAVE file begin with their least significant byte, and those in
/// the headers of an AIFF file with their most significant one.
pub proof fn numbers_are_made_of_bytes(s: Seq<u8>, at: int)
    ensures
        le16(s, at) == s[at] + 256 * s[at + 1],
        le32(s, at) == s[at] + 256 * s[at + 1] + 65_536 * s[at + 2] + 16_777_216 * s[at + 3],
        number(s, at, 1) == s[at],
        number(s, at, 2) == 256 * s[at] + s[at + 1],
        number(s, at, 4) == 16_777_216 * s[at] + 65_536 * s[at + 1] + 256 * s[at + 2] + s[at + 3],
        forall|n: int|
            n >= 0 ==> #[trigger] number(s, at, n + 1) == 256 * number(s, at, n) + s[at + n],
{
    reveal_with_fuel(number_from, 5);
}

proof fn number_of_more(s: Seq<u8>, tail: Seq<u8>, at: int, n: int)
    requires
        0 <= at,
        at + n <= s.len(),
    ensures
        number(s + tail, at, n) == number(s, at, n),
    decreases n,
{
    if n > 0 {
        number_of_more(s, tail, at, n - 1);
    }
}

proof fn info_of_more(s: Seq<u8>, tail: Seq<u8>, from: int, n: int, taken: int)
    requires
        0 <= from,
        0 <= taken,
        from + n <= s.len(),
    ensures
        info_read(s + tail, from, n, taken) == info_read(s, from, n, taken),
    decreases n - taken,
{
    let chunk = taken + taken % 2;
    if chunk + 8 <= n {
        let len = le32(s, from + chunk + 4);
        assert(le32(s + tail, from + chunk + 4) == len);
        if len <= n - (chunk + 8) {
            info_of_more(s, tail, from, n, chunk + 8 + len);
        }
    }
}

proof fn chunk_of_more(kind: Chunked, s: Seq<u8>, tail: Seq<u8>, at: int)
    requires
        0 <= at,
        at + 8 <= s.len(),
        chunk_read(kind, s, at) is Some,
    ensures
        chunk_read(kind, s + tail, at) == chunk_read(kind, s, at),
{
    let t = s + tail;
    number_of_more(s, tail, at + 4, 4);
    assert(le32(t, at + 4) == le32(s, at + 4));
    if kind == Chunked::Wave {
        if list_read(s, at) is Some {
            assert(list_read(t, at) == list_read(s, at)) by {
                info_of_more(s, tail, at + 12, le32(s, at + 4) - 4, 0);
            }
        }
        if wave_format_read(s, at) is Some {
            assert(wave_format_read(t, at) == wave_format_read(s, at));
        }
    } else if at + 26 <= s.len() {
        number_of_more(s, tail, at + 16, 2);
        number_of_more(s, tail, at + 18, 8);
    }
}

proof fn chunks_of_more(kind: Chunked, s: Seq<u8>, tail: Seq<u8>, at: int, taken: int, len: int)
    requires
        chunks_return(kind, s, at, taken, len),
    ensures
        chunks_return(kind, s + tail, at, taken, len),
    decreases s.len() - at,
{
    let t = s + tail;
    let start = at + taken % 2;
    number_of_more(s, tail, start + 4, 4);
    assert(chunk_len(kind, t, start) == chunk_len(kind, s, start));
    if let Some(read) = chunk_read(kind, s, start) {
        chunk_of_more(kind, s, tail, start);
        let counted = taken + taken % 2 + 8;
        let n = chunk_len(kind, s, start);
        if at < start + 8 + read <= s.len() && chunks_return(
            kind,
            s,
            start + 8 + read,
            counted + n,
            len,
        ) {
            chunks_of_more(kind, s, tail, start + 8 + read, counted + n, len);
        }
    }
}

/// A WAVE or AIFF file that can be probed can be probed just as well with more behind it, however
/// much that is.
pub proof fn more_audio_can_be_probed(s: Seq<u8>, tail: Seq<u8>, start: int, wave: bool)
    requires
        0 <= start,
        riff_returns(s, start, wave),
    ensures
        riff_returns(s + tail, start, wave),
{
    let t = s + tail;
    number_of_more(s, tail, start + 4, 4);
    let kind = if wave {
        Chunked::Wave
    } else if reads(s, start + 8, seq![0x41, 0x49, 0x46, 0x43]) {
        Chunked::AiffCompressed
    } else {
        Chunked::Aiff
    };
    let part = s.subrange(start + 8, start + 12);
    if reads(s, start + 8, seq![0x41, 0x49, 0x46, 0x43]) {
        assert(part[0] == 0x41 && part[1] == 0x49 && part[2] == 0x46 && part[3] == 0x43);
    }
    if part[0] == 0x41 && part[1] == 0x49 && part[2] == 0x46 && part[3] == 0x43 {
        assert(part == seq![0x41u8, 0x49, 0x46, 0x43]);
    }
    assert(chunk_len(kind, t, start) == chunk_len(kind, s, start));
    chunks_of_more(kind, s, tail, start + 12, 0, chunk_len(kind, s, start));
}

/// A WAVE file of plain samples, be they whole numbers or fractions, can be probed exactly if its
/// sample rate is not zero, and its `data` chunk lies within the file or both are of unknown
/// length. How many bytes of it there are makes no difference, nor does what comes before it.
pub proof fn plain_wave_can_be_probed(source: &[u8], at: int, r: bool)
    requires
        call_ensures(can_be_probed, (source,), r),
        0 <= at,
        at + 44 <= source@.len(),
        no_marker_before(source@, at),
        reads(source@, at, seq![0x52, 0x49, 0x46, 0x46]),
        reads(source@, at + 12, seq![0x66, 0x6D, 0x74, 0x20]),
        le32(source@, at + 16) == 16,
        le16(source@, at + 20) == 1 || le16(source@, at + 20) == 3,
        reads(source@, at + 36, seq![0x64, 0x61, 0x74, 0x61]),
    ensures
        r <==> le32(source@, at + 24) != 0 && (le32(source@, at + 40) + 32 <= le32(source@, at + 4)
            || (le32(source@, at + 40) == 0xFFFF_FFFF && le32(source@, at + 4) == 0xFFFF_FFFF)),
{
    let s = source@;
    search_goes_to_the_first_marker(s, at);
    containers_are_told_by_their_first_bytes(s, at);
    let format = s.subrange(at + 12, at + 16);
    assert(format[0] == 0x66 && format[1] == 0x6D && format[2] == 0x74 && format[3] == 0x20);
    let data = s.subrange(at + 36, at + 40);
    assert(data[0] == 0x64 && data[1] == 0x61 && data[2] == 0x74 && data[3] == 0x61);
    let len = le32(s, at + 4);
    let n = le32(s, at + 40);
    let fits = n + 32 <= len || (n == 0xFFFF_FFFF && len == 0xFFFF_FFFF);
    assert(chunks_return(Chunked::Wave, s, at + 36, 24, len) <==> fits);
    assert(chunks_return(Chunked::Wave, s, at + 12, 0, len) <==> le32(s, at + 24) != 0 && fits);
}

/// No WAVE file is read past a `fmt ` chunk with a sample rate of zero, whatever its format is.
pub proof fn rate_of_zero_is_not_read(s: Seq<u8>, at: int)
    requires
        s[at + 12] == 0 && s[at + 13] == 0 && s[at + 14] == 0 && s[at + 15] == 0,
    ensures
        wave_format_read(s, at) is None,
{
}

/// Only plain samples, companded ones, the two kinds of differences and the extensible format are
/// read of a WAVE file.
pub proof fn formats_that_are_read(s: Seq<u8>, at: int)
    requires
        wave_format_read(s, at) is Some,
    ensures
        s[at + 9] == 0 && (s[at + 8] == 1 || s[at + 8] == 2 || s[at + 8] == 3 || s[at + 8] == 6
            || s[at + 8] == 7 || s[at + 8] == 0x11) || (s[at + 9] == 0xFF && s[at + 8] == 0xFE),
{
}

/// A `fmt ` chunk of 18 bytes without an extension is read to its end for plain samples and for
/// companded ones, at any rate other than zero.
pub proof fn formats_of_eighteen_bytes(s: Seq<u8>, at: int)
    requires
        0 <= at,
        at + 26 <= s.len(),
        le32(s, at + 4) == 18,
        le32(s, at + 12) != 0,
        le16(s, at + 24) == 0,
        le16(s, at + 8) == 1 || le16(s, at + 8) == 3 || le16(s, at + 8) == 6 || le16(s, at + 8)
            == 7,
    ensures
        wave_format_read(s, at) == Some(18int),
{
}

/// Of the two kinds of differences, in 4 bits each, a block has a header of 7 bytes per channel, or
/// of 4. It is read exactly if there are 1 to 26 channels, the headers fit in the block, and the
/// bits behind them can be counted in 16 bits.
pub proof fn blocks_hold_their_headers(s: Seq<u8>, at: int)
    requires
        0 <= at,
        at + 26 <= s.len(),
        le32(s, at + 4) >= 20,
        le32(s, at + 12) != 0,
        le16(s, at + 22) == 4,
        (le16(s, at + 8) == 2 && le16(s, at + 24) >= 32) || (le16(s, at + 8) == 0x11 && le16(
            s,
            at + 24,
        ) == 2),
    ensures
        ({
            let channels = le16(s, at + 10);
            let headers = if le16(s, at + 8) == 2 {
                7 * channels
            } else {
                4 * channels
            };
            let audio = le16(s, at + 20) - headers;
            wave_format_read(s, at) == if 1 <= channels <= 26 && 0 <= audio && 8 * audio <= 65_535 {
                Some(18 + le16(s, at + 24))
            } else {
                None
            }
        }),
{
}

/// The extensible format is read to its end where there are as many speakers as channels, or more.
pub proof fn extensible_format_is_read(s: Seq<u8>, at: int)
    requires
        0 <= at,
        at + 32 <= s.len(),
        le16(s, at + 8) == 0xFFFE,
        le32(s, at + 4) >= 40,
        le32(s, at + 12) != 0,
        le16(s, at + 24) == 22,
        le16(s, at + 22) > 0,
        le16(s, at + 10) <= ones(le32(s, at + 28)),
    ensures
        wave_format_read(s, at) == Some(40int),
{
}

/// A list of anything but information is passed over, with one byte more where its length is odd,
/// if it is there to its end.
pub proof fn other_lists_are_passed_over(s: Seq<u8>, at: int)
    requires
        0 <= at,
        le32(s, at + 4) >= 4,
        at + 8 + le32(s, at + 4) <= s.len(),
        !reads(s, at + 8, seq![0x49, 0x4E, 0x46, 0x4F]),
    ensures
        list_read(s, at) == Some(le32(s, at + 4) + le32(s, at + 4) % 2),
{
    let tag = s.subrange(at + 8, at + 12);
    assert(tag =~= seq![s[at + 8], s[at + 9], s[at + 10], s[at + 11]]);
}

/// The speakers in a mask are counted by its binary digits.
pub proof fn speakers_are_counted(x: int)
    requires
        x >= 0,
    ensures
        ones(0) == 0,
        ones(2 * x) == ones(x),
        ones(2 * x + 1) == ones(x) + 1,
{
}

/// A chunk of a kind that says nothing of the audio is passed over by its length.
pub proof fn other_chunks_are_passed_over(kind: Chunked, s: Seq<u8>, at: int, taken: int, len: int)
    requires
        0 <= at,
        0 <= taken,
        taken % 2 == 0,
        at + 8 <= s.len(),
        taken + 8 + chunk_len(kind, s, at) <= len <= 0xFFFF_FFF0,
        at + 8 + chunk_len(kind, s, at) <= s.len(),
        chunk_len(kind, s, at) >= 0,
        kind == Chunked::Wave ==> !reads(s, at, seq![0x66, 0x6D, 0x74, 0x20]) && !reads(
            s,
            at,
            seq![0x66, 0x61, 0x63, 0x74],
        ) && !reads(s, at, seq![0x4C, 0x49, 0x53, 0x54]) && !reads(
            s,
            at,
            seq![0x64, 0x61, 0x74, 0x61],
        ),
        kind != Chunked::Wave ==> !reads(s, at, seq![0x43, 0x4F, 0x4D, 0x4D]) && !reads(
            s,
            at,
            seq![0x53, 0x53, 0x4E, 0x44],
        ),
    ensures
        chunks_return(kind, s, at, taken, len) == chunks_return(
            kind,
            s,
            at + 8 + chunk_len(kind, s, at),
            taken + 8 + chunk_len(kind, s, at),
            len,
        ),
{
    let tag = s.subrange(at, at + 4);
    assert(tag =~= seq![s[at], s[at + 1], s[at + 2], s[at + 3]]);
}

/// A positive number with a leading one in its fraction, as encoders write it, is one or more
/// exactly if its exponent says so, and infinity is none of them.
pub proof fn rates_are_told_by_their_exponent(s: Seq<u8>, at: int)
    requires
        number(s, at + 2, 8) >= 0x8000_0000_0000_0000,
    ensures
        is_one_or_more(s, at) <==> 16_383 <= number(s, at, 2) < 32_767,
{
    lemma2_to64_rest();
    let places = number(s, at, 2) - 16_383;
    if 0 < places <= 63 {
        lemma_pow2_strictly_increases((63 - places) as nat, 63);
    }
}

/// An AIFF file with its `COMM` chunk first and its audio next can be probed exactly if its rate is
/// one or more, and its audio lies within the file or both are of unknown length. How many bytes of
/// audio there are makes no difference, nor does what comes before the file.
pub proof fn plain_aiff_can_be_probed(source: &[u8], at: int, r: bool)
    requires
        call_ensures(can_be_probed, (source,), r),
        0 <= at,
        at + 46 <= source@.len(),
        no_marker_before(source@, at),
        reads(source@, at, seq![0x46, 0x4F, 0x52, 0x4D]),
        reads(source@, at + 8, seq![0x41, 0x49, 0x46, 0x46]),
        reads(source@, at + 12, seq![0x43, 0x4F, 0x4D, 0x4D]),
        number(source@, at + 16, 4) == 18,
        reads(source@, at + 38, seq![0x53, 0x53, 0x4E, 0x44]),
    ensures
        r <==> is_one_or_more(source@, at + 28) && (number(source@, at + 42, 4) + 34 <= number(
            source@,
            at + 4,
            4,
        ) || (number(source@, at + 42, 4) == 0xFFFF_FFFF && number(source@, at + 4, 4)
            == 0xFFFF_FFFF)),
{
    let s = source@;
    search_goes_to_the_first_marker(s, at);
    containers_are_told_by_their_first_bytes(s, at);
    let plain = s.subrange(at + 8, at + 12);
    assert(plain[0] == 0x41 && plain[1] == 0x49 && plain[2] == 0x46 && plain[3] == 0x46);
    let common = s.subrange(at + 12, at + 16);
    assert(common[0] == 0x43 && common[1] == 0x4F && common[2] == 0x4D && common[3] == 0x4D);
    let audio = s.subrange(at + 38, at + 42);
    assert(audio[0] == 0x53 && audio[1] == 0x53 && audio[2] == 0x4E && audio[3] == 0x44);
    numbers_are_made_of_bytes(s, at + 42);
    let len = number(s, at + 4, 4);
    let n = number(s, at + 42, 4);
    let fits = n + 34 <= len || (n == 0xFFFF_FFFF && len == 0xFFFF_FFFF);
    assert(chunks_return(Chunked::Aiff, s, at + 38, 26, len) <==> fits);
    assert(chunks_return(Chunked::Aiff, s, at + 12, 0, len) <==> is_one_or_more(s, at + 28)
        && fits);
}

/// The chunks in a list of information are passed over one after the other, each at an even place,
/// and must lie within the list.
pub proof fn information_is_passed_over(s: Seq<u8>, from: int, n: int, taken: int)
    requires
        0 <= taken,
        taken % 2 == 0,
        taken + 8 <= n,
    ensures
        ({
            let len = le32(s, from + taken + 4);
            info_read(s, from, n, taken) == if taken + 8 + len <= n {
                info_read(s, from, n, taken + 8 + len)
            } else {
                None
            }
        }),
        n >= 0 ==> info_read(s, from, n, n) == Some(n + 2 * (n % 2)),
{
}

/// Of the chunk that describes compressed audio in an AIFF file, 18 bytes, the kind of the
/// compression and its name are read, the name with its length and up to an even number of bytes.
pub proof fn compressed_aiff_is_described(s: Seq<u8>, at: int)
    requires
        0 <= at,
        at + 31 <= s.len(),
        is_one_or_more(s, at + 16),
    ensures
        aiff_common_read(s, at, false) == Some(18int),
        s[at + 30] == 255 ==> aiff_common_read(s, at, true) is None,
        s[at + 30] < 255 && s[at + 30] % 2 == 0 ==> aiff_common_read(s, at, true) == Some(
            24 + s[at + 30],
        ),
        s[at + 30] < 255 && s[at + 30] % 2 == 1 ==> aiff_common_read(s, at, true) == Some(
            23 + s[at + 30],
        ),
{
}

/// Missing speakers are added above those in use: that can be done for up to 31 of them, unless the
/// last of the 32 is in use.
pub proof fn missing_speakers_are_added(mask: int, channels: int)
    ensures
        channels <= ones(mask) ==> mask_fits(mask, channels),
        channels > ones(mask) && mask >= 0x8000_0000 ==> !mask_fits(mask, channels),
        channels > ones(mask) && mask < 0x8000_0000 ==> (mask_fits(mask, channels) <==> channels
            <= ones(mask) + 31),
{
}

/// The number of samples of a WAVE file stands in four bytes, or the file is not read.
pub proof fn number_of_samples_takes_four_bytes(s: Seq<u8>, at: int)
    requires
        reads(s, at, seq![0x66, 0x61, 0x63, 0x74]),
    ensures
        chunk_read(Chunked::Wave, s, at) == if le32(s, at + 4) == 4 {
            Some(4int)
        } else {
            None
        },
{
    let tag = s.subrange(at, at + 4);
    assert(tag[0] == 0x66 && tag[1] == 0x61 && tag[2] == 0x63 && tag[3] == 0x74);
}

} // verus!
