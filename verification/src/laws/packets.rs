//! Laws of Ogg files and of the setup header of Vorbis: that only such a header can keep a file
//! from being probed, and how its numbers are read.
use vstd::arithmetic::power2::{lemma2_to64, lemma_pow2_unfold, pow2};
use vstd::prelude::*;

use crate::container::can_be_probed;
use crate::container::ogg::{
    is_complete, is_page, is_setup, next_page, ogg_returns, packet, packet_stop, packets_return,
    page_end, page_of, segment_start, segments, stream_of,
};
use crate::container::vorbis::{
    bit, bit_len, bits, codebook_end, codebook_returns, codebooks_return, counted_end, dimensions,
    entries, has_bits, lookup_start, power, root, root_from, setup_returns, sparse_end, value_len,
};
use crate::laws::containers::{
    containers_are_told_by_their_first_bytes, no_marker_before, reads,
    search_goes_to_the_first_marker,
};

verus! {

/// The setup header of a Vorbis stream begins at `at`, be it one or only look like it.
pub open spec fn looks_like_a_setup(s: Seq<u8>, at: int) -> bool {
    reads(s, at, seq![5, 0x76, 0x6F, 0x72, 0x62, 0x69, 0x73])
}

proof fn segments_stay_behind_the_table(s: Seq<u8>, page: int, k: int)
    ensures
        segment_start(s, page, k) >= page + 27 + segments(s, page),
    decreases k,
{
    if k > 0 {
        segments_stay_behind_the_table(s, page, k - 1);
    }
}

proof fn pages_are_looked_for_ahead(s: Seq<u8>, at: int)
    requires
        0 <= at <= s.len(),
    ensures
        at <= next_page(s, at) <= s.len(),
    decreases s.len() - at,
{
    if at < s.len() {
        pages_are_looked_for_ahead(s, at + 1);
    }
}

proof fn packets_without_a_setup_return(s: Seq<u8>, page: int, k: int)
    requires
        0 <= page,
        forall|at: int| !#[trigger] looks_like_a_setup(s, at),
    ensures
        packets_return(s, page, k),
    decreases segments(s, page) - k,
{
    if k < segments(s, page) {
        packets_without_a_setup_return(s, page, k + 1);
        if is_setup(s, page, k) {
            let at = segment_start(s, page, k);
            segments_stay_behind_the_table(s, page, k);
            assert(s.subrange(at, at + 7) =~= seq![5u8, 0x76, 0x6F, 0x72, 0x62, 0x69, 0x73]);
            assert(looks_like_a_setup(s, at));
        }
    }
}

proof fn pages_without_a_setup_return(s: Seq<u8>, page: int)
    requires
        0 <= page,
        forall|at: int| !#[trigger] looks_like_a_setup(s, at),
    ensures
        ogg_returns(s, page),
    decreases s.len() - page,
{
    if page < s.len() && is_complete(s, page) {
        let end = page_end(s, page);
        segments_stay_behind_the_table(s, page, segments(s, page));
        pages_are_looked_for_ahead(s, end);
        packets_without_a_setup_return(s, page, 0);
        pages_without_a_setup_return(s, next_page(s, end));
    }
}

/// An Ogg file without the setup header of a Vorbis stream can be probed, whatever it holds and
/// however long it is. What comes before it makes no difference.
pub proof fn ogg_without_vorbis_can_be_probed(source: &[u8], at: int, r: bool)
    requires
        call_ensures(can_be_probed, (source,), r),
        0 <= at,
        at + 16 <= source@.len(),
        no_marker_before(source@, at),
        reads(source@, at, seq![0x4F, 0x67, 0x67, 0x53]),
        forall|k: int| !#[trigger] looks_like_a_setup(source@, k),
    ensures
        r,
{
    search_goes_to_the_first_marker(source@, at);
    containers_are_told_by_their_first_bytes(source@, at);
    pages_without_a_setup_return(source@, at);
}

/// A page ends behind its table and as many bytes as the entries of the table add up to.
pub proof fn segments_add_up(s: Seq<u8>, page: int, k: int)
    requires
        k >= 0,
    ensures
        segment_start(s, page, 0) == page + 27 + s[page + 26],
        segment_start(s, page, k + 1) == segment_start(s, page, k) + s[page + 27 + k],
        page_end(s, page) == segment_start(s, page, s[page + 26] as int),
{
}

/// Eight bits from the start of a byte on are that byte.
pub proof fn bits_make_bytes(p: Seq<u8>, k: int)
    requires
        k >= 0,
    ensures
        bits(p, 8 * k, 8) == p[k],
{
    reveal_with_fuel(bits, 9);
    let byte = p[k] as int;
    assert forall|j: int| 0 <= j < 8 implies (8 * k + j) / 8 == k && #[trigger] ((8 * k + j) % 8)
        == j by {}
    assert(bit(p, 8 * k) == byte % 2);
    assert(bit(p, 8 * k + 1) == byte / 2 % 2);
    assert(bit(p, 8 * k + 2) == byte / 4 % 2);
    assert(bit(p, 8 * k + 3) == byte / 8 % 2);
    assert(bit(p, 8 * k + 4) == byte / 16 % 2);
    assert(bit(p, 8 * k + 5) == byte / 32 % 2);
    assert(bit(p, 8 * k + 6) == byte / 64 % 2);
    assert(bit(p, 8 * k + 7) == byte / 128);
}

/// A number of bits is made of the number of the first of them and that of the others, which weigh
/// more.
pub proof fn bits_are_read_in_parts(p: Seq<u8>, at: int, m: nat, n: int)
    requires
        n >= 0,
    ensures
        bits(p, at, m + n) == bits(p, at, m as int) + pow2(m) * bits(p, at + m, n),
    decreases m,
{
    lemma2_to64();
    if m > 0 {
        bits_are_read_in_parts(p, at + 1, (m - 1) as nat, n);
        lemma_pow2_unfold(m);
        let rest = bits(p, at + m, n);
        let half = pow2((m - 1) as nat);
        assert(2 * (half * rest) == (2 * half) * rest) by (nonlinear_arith);
        assert(at + 1 + (m - 1) == at + m);
        assert(bits(p, at, m + n) == bit(p, at) + 2 * bits(p, at + 1, m + n - 1));
        assert(bits(p, at, m as int) == bit(p, at) + 2 * bits(p, at + 1, m - 1));
    } else {
        assert(pow2(0) * bits(p, at, n) == bits(p, at, n)) by (nonlinear_arith)
            requires
                pow2(0) == 1,
        ;
    }
}

proof fn root_is_found(x: int, n: int, from: int)
    requires
        0 <= from <= x,
        n >= 1,
        power(from, n) <= x,
    ensures
        power(root_from(x, n, from), n) <= x,
        root_from(x, n, from) < x ==> x < power(root_from(x, n, from) + 1, n),
        from <= root_from(x, n, from) <= x,
    decreases x - from,
{
    if from < x && power(from + 1, n) <= x {
        root_is_found(x, n, from + 1);
    }
}

proof fn power_is_no_less(base: int, n: int)
    requires
        base >= 1,
        n >= 1,
    ensures
        power(base, n) >= base,
    decreases n,
{
    if n > 1 {
        power_is_no_less(base, n - 1);
        assert(base * power(base, n - 1) >= base) by (nonlinear_arith)
            requires
                base >= 1,
                power(base, n - 1) >= base,
        ;
    } else {
        assert(power(base, 0) == 1);
        assert(base * power(base, 0) == base) by (nonlinear_arith)
            requires
                power(base, 0) == 1,
        ;
    }
}

/// The root that tells the number of values in a lookup table is the largest number whose power is
/// not more than the number of entries.
pub proof fn root_is_the_largest_that_fits(x: int, n: int)
    requires
        x >= 0,
        n >= 1,
    ensures
        0 <= root(x, n) <= x,
        power(root(x, n), n) <= x < power(root(x, n) + 1, n),
{
    assert(power(0, n) == 0) by (nonlinear_arith)
        requires
            n >= 1,
            power(0, n) == 0 * power(0, n - 1),
    ;
    if n == 1 {
        assert(power(x, 0) == 1 && power(x + 1, 0) == 1);
        assert(power(x, 1) == x * power(x, 0) && power(x + 1, 1) == (x + 1) * power(x + 1, 0));
        assert(x * 1 == x && (x + 1) * 1 == x + 1);
    } else {
        root_is_found(x, n, 0);
        power_is_no_less(root(x, n) + 1, n);
    }
}

/// A setup header that ends before its first codebook does, or whose first codebook does not begin
/// with the three bytes that it has to, can be read.
pub proof fn setup_without_a_codebook_can_be_read(p: Seq<u8>)
    requires
        p.len() <= 0x1000_0000,
        p.len() < 17 || !(p[8] == 0x42 && p[9] == 0x43 && p[10] == 0x56),
    ensures
        setup_returns(p),
{
    if p.len() >= 17 {
        bits_make_bytes(p, 8);
        bits_make_bytes(p, 9);
        bits_make_bytes(p, 10);
        bits_are_read_in_parts(p, 64, 8, 16);
        bits_are_read_in_parts(p, 72, 8, 8);
        lemma2_to64();
        assert(bits(p, 64, 24) == p[8] + 256 * p[9] + 65_536 * p[10]);
    }
}

/// A codebook without a lookup table can be passed over. One with a value for each dimension of
/// each entry can be, exactly if the bits of the values can be counted in 32 bits.
pub proof fn lookup_tables_can_be_counted(p: Seq<u8>, at: int, table: int)
    requires
        lookup_start(p, at) == Some(table),
        has_bits(p, table, 73),
        bits(p, table, 4) != 1,
    ensures
        bits(p, table, 4) != 2 ==> codebook_returns(p, at),
        bits(p, table, 4) == 2 ==> (codebook_returns(p, at) <==> entries(p, at) * dimensions(p, at)
            <= 0xFFFF_FFFF && entries(p, at) * dimensions(p, at) * value_len(p, table)
            <= 0xFFFF_FFFF),
{
}

/// The lengths of the codes of a codebook take five bits each where they are listed for all
/// entries, behind the 66 bits with which the codebook begins.
pub proof fn code_lengths_take_five_bits(p: Seq<u8>, at: int)
    requires
        has_bits(p, at, 66 + 5 * entries(p, at)),
        entries(p, at) >= 0,
        bits(p, at, 24) == 0x564342,
        bit(p, at + 64) == 0,
        bit(p, at + 65) == 0,
    ensures
        lookup_start(p, at) == Some(at + 66 + 5 * entries(p, at)),
{
}

/// Every setup header in the file that is there to its end can be read.
pub open spec fn setups_can_be_read(s: Seq<u8>) -> bool {
    forall|page: int, k: int|
        #[trigger] is_setup(s, page, k) ==> (packet(s, page, k) matches Some(setup)
            ==> setup_returns(setup))
}

proof fn packets_with_readable_setups_return(s: Seq<u8>, page: int, k: int)
    requires
        setups_can_be_read(s),
    ensures
        packets_return(s, page, k),
    decreases segments(s, page) - k,
{
    if k < segments(s, page) {
        packets_with_readable_setups_return(s, page, k + 1);
    }
}

proof fn pages_with_readable_setups_return(s: Seq<u8>, page: int)
    requires
        0 <= page,
        setups_can_be_read(s),
    ensures
        ogg_returns(s, page),
    decreases s.len() - page,
{
    if page < s.len() && is_complete(s, page) {
        let end = page_end(s, page);
        segments_stay_behind_the_table(s, page, segments(s, page));
        pages_are_looked_for_ahead(s, end);
        packets_with_readable_setups_return(s, page, 0);
        pages_with_readable_setups_return(s, next_page(s, end));
    }
}

/// An Ogg file whose setup headers of Vorbis streams can be read can be probed, however many
/// streams it holds and however long it is.
pub proof fn ogg_with_readable_setups_can_be_probed(source: &[u8], at: int, r: bool)
    requires
        call_ensures(can_be_probed, (source,), r),
        0 <= at,
        at + 16 <= source@.len(),
        no_marker_before(source@, at),
        reads(source@, at, seq![0x4F, 0x67, 0x67, 0x53]),
        setups_can_be_read(source@),
    ensures
        r,
{
    search_goes_to_the_first_marker(source@, at);
    containers_are_told_by_their_first_bytes(source@, at);
    pages_with_readable_setups_return(source@, at);
}

/// A packet ends with the first segment of fewer than 255 bytes.
pub proof fn packet_ends_with_a_short_segment(s: Seq<u8>, page: int, k: int, last: int)
    requires
        0 <= page,
        page + 27 <= s.len(),
        0 <= k <= last < s[page + 26],
        forall|j: int| k <= j < last ==> #[trigger] s[page + 27 + j] == 255,
        s[page + 27 + last] < 255,
    ensures
        packet(s, page, k) == Some(
            s.subrange(segment_start(s, page, k), segment_start(s, page, last + 1)),
        ),
{
    stop_is_behind_the_short_segment(s, page, k, last);
}

proof fn stop_is_behind_the_short_segment(s: Seq<u8>, page: int, k: int, last: int)
    requires
        k <= last < s[page + 26],
        forall|j: int| k <= j < last ==> #[trigger] s[page + 27 + j] == 255,
        s[page + 27 + last] < 255,
    ensures
        packet_stop(s, page, k) == last + 1,
    decreases last - k,
{
    if k < last {
        assert(s[page + 27 + k] == 255);
        stop_is_behind_the_short_segment(s, page, k + 1, last);
    }
}

proof fn stop_is_the_end_of_the_page(s: Seq<u8>, page: int, k: int)
    requires
        k <= s[page + 26],
        forall|j: int| k <= j < s[page + 26] ==> #[trigger] s[page + 27 + j] == 255,
    ensures
        packet_stop(s, page, k) == s[page + 26],
    decreases s[page + 26] - k,
{
    if k < s[page + 26] {
        assert(s[page + 27 + k] == 255);
        stop_is_the_end_of_the_page(s, page, k + 1);
    }
}

/// A packet whose segments are all of 255 bytes up to the end of its page goes on with the first
/// packet of the next page of the same stream.
pub proof fn packet_goes_on_with_the_next_page(s: Seq<u8>, page: int, k: int, next: int)
    requires
        0 <= page < next < s.len(),
        page + 27 <= s.len(),
        0 <= k <= s[page + 26],
        forall|j: int| k <= j < s[page + 26] ==> #[trigger] s[page + 27 + j] == 255,
        page_of(s, stream_of(s, page), page_end(s, page)) == Some(next),
    ensures
        packet(s, page, k) == match packet(s, next, 0) {
            None => None,
            Some(rest) => Some(
                s.subrange(segment_start(s, page, k), page_end(s, page)) + rest,
            ),
        },
{
    stop_is_the_end_of_the_page(s, page, k);
    let last: int = s[page + 26] - 1;
    if k <= last {
        assert(s[page + 27 + last] == 255);
    }
}

/// The stream that a page belongs to is told by four of its bytes, and a page of another stream is
/// passed over.
pub proof fn pages_of_other_streams_are_passed_over(s: Seq<u8>, stream: int, at: int)
    requires
        0 <= at <= s.len(),
        next_page(s, at) < s.len(),
        is_complete(s, next_page(s, at)),
    ensures
        ({
            let page = next_page(s, at);
            let of = 16_777_216 * s[page + 14] + 65_536 * s[page + 15] + 256 * s[page + 16] + s[page
                + 17];
            page_of(s, stream, at) == if of == stream {
                Some(page)
            } else {
                page_of(s, stream, page_end(s, page))
            }
        }),
{
    let page = next_page(s, at);
    pages_are_looked_for_ahead(s, at);
    segments_stay_behind_the_table(s, page, segments(s, page));
    crate::laws::chunks::numbers_are_made_of_bytes(s, page + 14);
}

/// The number of bits of a number is that of its highest one.
pub proof fn numbers_have_as_many_bits_as_they_need(x: int)
    ensures
        x <= 0 ==> bit_len(x) == 0,
        x > 0 ==> bit_len(x) > 0 && pow2((bit_len(x) - 1) as nat) <= x < pow2(bit_len(x) as nat),
    decreases x,
{
    lemma2_to64();
    assert(bit_len(0) == 0);
    if x > 1 {
        numbers_have_as_many_bits_as_they_need(x / 2);
        lemma_pow2_unfold((bit_len(x) - 1) as nat);
        lemma_pow2_unfold(bit_len(x) as nat);
    }
}

/// The lengths of the codes of a codebook take six bits each where only those of some entries are
/// listed, and one bit for each entry that has none.
pub proof fn listed_code_lengths_take_six_bits(p: Seq<u8>, at: int, left: int)
    requires
        left > 0,
        has_bits(p, at, 6),
    ensures
        bit(p, at) == 0 ==> sparse_end(p, at, left) == sparse_end(p, at + 1, left - 1),
        bit(p, at) != 0 ==> sparse_end(p, at, left) == sparse_end(p, at + 6, left - 1),
        sparse_end(p, at, 0) == Some(at),
{
}

/// Where the lengths ascend, the number of entries of each is listed, in as many bits as the number
/// of those that are left needs, and may not be more than that.
pub proof fn ascending_code_lengths_are_counted(p: Seq<u8>, at: int, left: int)
    requires
        left > 0,
        has_bits(p, at, bit_len(left)),
    ensures
        counted_end(p, at, left) == if bits(p, at, bit_len(left)) <= left {
            counted_end(p, at + bit_len(left), left - bits(p, at, bit_len(left)))
        } else {
            None
        },
        counted_end(p, at, 0) == Some(at),
{
    numbers_have_as_many_bits_as_they_need(left);
}

/// A codebook without a lookup table ends behind the four bits that say so, and one with a value
/// for each dimension of each entry behind these values.
pub proof fn codebooks_end_behind_their_tables(p: Seq<u8>, at: int, table: int)
    requires
        lookup_start(p, at) == Some(table),
        has_bits(p, table, 73),
    ensures
        bits(p, table, 4) == 0 ==> codebook_end(p, at) == Some(table + 4),
        bits(p, table, 4) == 2 ==> {
            let len = entries(p, at) * dimensions(p, at) * (bits(p, table + 68, 4) + 1);
            codebook_end(p, at) == if has_bits(p, table + 73, len) {
                Some(table + 73 + len)
            } else {
                None
            }
        },
        bits(p, table, 4) > 2 ==> codebook_end(p, at) is None,
{
}

/// A setup header holds one codebook more than its eighth byte says, one behind the other; it can
/// be read exactly if each of them can be passed over, up to the first that is not there to its
/// end.
pub proof fn codebooks_are_read_one_by_one(p: Seq<u8>, at: int, left: int)
    requires
        8 <= p.len() <= 0x1000_0000,
        left > 0,
    ensures
        setup_returns(p) <==> codebooks_return(p, 64, p[7] + 1),
        codebooks_return(p, at, left) <==> codebook_returns(p, at) && (codebook_end(p, at) matches
            Some(next) ==> codebooks_return(p, next, left - 1)),
        codebooks_return(p, at, 0),
{
    bits_make_bytes(p, 7);
}

proof fn bits_fit(p: Seq<u8>, at: int, n: nat)
    ensures
        0 <= bits(p, at, n as int) < pow2(n),
    decreases n,
{
    lemma2_to64();
    if n > 0 {
        bits_fit(p, at + 1, (n - 1) as nat);
        lemma_pow2_unfold(n);
        let byte = p[at / 8] as int;
        assert(0 <= byte < 256);
        assert(0 <= bit(p, at) <= 1);
    }
}

/// A codebook of one dimension can be passed over, whatever its lookup table is.
pub proof fn codebooks_of_one_dimension_can_be_passed_over(p: Seq<u8>, at: int)
    requires
        dimensions(p, at) == 1,
    ensures
        codebook_returns(p, at),
{
    if let Some(table) = lookup_start(p, at) {
        let x = entries(p, at);
        bits_fit(p, at + 40, 24);
        bits_fit(p, table + 68, 4);
        lemma2_to64();
        root_is_the_largest_that_fits(x, 1);
        assert(power(x, 0) == 1 && power(x + 1, 0) == 1);
        assert(power(x, 1) == x * power(x, 0));
        assert(power(x + 1, 1) == (x + 1) * power(x + 1, 0));
        assert(x * 1 == x && (x + 1) * 1 == x + 1);
        let len = value_len(p, table);
        assert(x * len <= 0x100_0000 * 16) by (nonlinear_arith)
            requires
                0 <= x < 0x100_0000,
                1 <= len <= 16,
        ;
        assert(x * 1 * len <= 0x100_0000 * 16);
    }
}

/// `OggS` stands at `at`.
pub open spec fn begins_a_page(s: Seq<u8>, at: int) -> bool {
    reads(s, at, seq![0x4F, 0x67, 0x67, 0x53])
}

proof fn pages_are_told_by_their_first_bytes(s: Seq<u8>, at: int)
    ensures
        is_page(s, at) <==> begins_a_page(s, at),
{
    if 0 <= at && at + 4 <= s.len() {
        let mark = s.subrange(at, at + 4);
        if reads(s, at, seq![0x4F, 0x67, 0x67, 0x53]) {
            assert(mark[0] == 0x4F && mark[1] == 0x67 && mark[2] == 0x67 && mark[3] == 0x53);
        }
        if mark[0] == 0x4F && mark[1] == 0x67 && mark[2] == 0x67 && mark[3] == 0x53 {
            assert(mark == seq![0x4Fu8, 0x67, 0x67, 0x53]);
        }
    }
}

/// The next page is the first place at which `OggS` stands, if it does at any.
pub proof fn next_page_is_found(s: Seq<u8>, at: int)
    requires
        0 <= at <= s.len(),
    ensures
        at <= next_page(s, at) <= s.len(),
        next_page(s, at) < s.len() ==> begins_a_page(s, next_page(s, at)),
        forall|k: int| at <= k < next_page(s, at) ==> !#[trigger] begins_a_page(s, k),
    decreases s.len() - at,
{
    pages_are_told_by_their_first_bytes(s, at);
    if at < s.len() && !is_page(s, at) {
        next_page_is_found(s, at + 1);
    }
}

/// A page is there to its end exactly if its header, its table and all that the table counts are.
pub proof fn pages_are_there_to_their_end(s: Seq<u8>, page: int)
    requires
        page + 27 <= s.len(),
    ensures
        is_complete(s, page) <==> page_end(s, page) <= s.len(),
{
    segments_stay_behind_the_table(s, page, segments(s, page));
}

/// A file is probed page by page: exactly if the packets of a page that is there to its end can be
/// read, and the file can be probed from the next page on. A page that is cut off ends it.
pub proof fn pages_are_read_one_by_one(s: Seq<u8>, page: int)
    requires
        0 <= page < s.len(),
    ensures
        is_complete(s, page) ==> (ogg_returns(s, page) <==> packets_return(s, page, 0)
            && ogg_returns(s, next_page(s, page_end(s, page)))),
        !is_complete(s, page) ==> ogg_returns(s, page),
{
    if is_complete(s, page) {
        segments_stay_behind_the_table(s, page, segments(s, page));
        pages_are_looked_for_ahead(s, page_end(s, page));
    }
}

proof fn unreadable_packet_is_not_passed_over(s: Seq<u8>, page: int, from: int, k: int)
    requires
        from <= k < segments(s, page),
        is_setup(s, page, k),
        packet(s, page, k) matches Some(setup) && !setup_returns(setup),
    ensures
        !packets_return(s, page, from),
    decreases k - from,
{
    if from < k {
        unreadable_packet_is_not_passed_over(s, page, from + 1, k);
    }
}

/// An Ogg file with a page on which a setup header begins that cannot be read is not probed up to
/// it.
pub proof fn unreadable_setup_is_not_passed_over(s: Seq<u8>, page: int, k: int)
    requires
        0 <= page < s.len(),
        is_complete(s, page),
        0 <= k < s[page + 26],
        is_setup(s, page, k),
        packet(s, page, k) matches Some(setup) && !setup_returns(setup),
    ensures
        !ogg_returns(s, page),
{
    unreadable_packet_is_not_passed_over(s, page, 0, k);
}

/// The setup header of a Vorbis stream is told by its first bytes, at the start of a packet.
pub proof fn setups_are_told_by_their_first_bytes(s: Seq<u8>, page: int, k: int)
    requires
        0 <= page,
    ensures
        is_setup(s, page, k) <==> looks_like_a_setup(s, segment_start(s, page, k)) && (k == 0
            || s[page + 26 + k] < 255),
{
    let at = segment_start(s, page, k);
    segments_stay_behind_the_table(s, page, k);
    if at + 7 <= s.len() {
        let mark = s.subrange(at, at + 7);
        if looks_like_a_setup(s, at) {
            assert(mark[0] == 5 && mark[1] == 0x76 && mark[2] == 0x6F && mark[3] == 0x72 && mark[4]
                == 0x62 && mark[5] == 0x69 && mark[6] == 0x73);
        }
        if is_setup(s, page, k) {
            assert(mark =~= seq![5u8, 0x76, 0x6F, 0x72, 0x62, 0x69, 0x73]);
        }
    }
}

/// A codebook that begins with a byte has its dimensions in two bytes behind the first three, and
/// its entries in the next three, the least significant first.
pub proof fn dimensions_and_entries_of_a_codebook(p: Seq<u8>, k: int)
    requires
        k >= 0,
    ensures
        dimensions(p, 8 * k) == p[k + 3] + 256 * p[k + 4],
        entries(p, 8 * k) == p[k + 5] + 256 * p[k + 6] + 65_536 * p[k + 7],
{
    lemma2_to64();
    bits_make_bytes(p, k + 3);
    bits_make_bytes(p, k + 4);
    bits_make_bytes(p, k + 5);
    bits_make_bytes(p, k + 6);
    bits_make_bytes(p, k + 7);
    bits_are_read_in_parts(p, 8 * k + 24, 8, 8);
    bits_are_read_in_parts(p, 8 * k + 40, 8, 16);
    bits_are_read_in_parts(p, 8 * k + 48, 8, 8);
    assert(8 * (k + 3) == 8 * k + 24 && 8 * (k + 4) == 8 * k + 32 && 8 * (k + 5) == 8 * k + 40 && 8
        * (k + 6) == 8 * k + 48 && 8 * (k + 7) == 8 * k + 56);
}

} // verus!
