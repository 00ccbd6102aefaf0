//! The codebooks of Vorbis, which are packed bit by bit.
use vstd::arithmetic::power2::{
    lemma2_to64, lemma_pow2_strictly_increases, lemma_pow2_unfold, pow2,
};
use vstd::prelude::*;

verus! {

/// The bit at `at`: those of a byte come in ascending order of their weight.
pub open spec fn bit(p: Seq<u8>, at: int) -> int {
    let byte = p[at / 8] as int;
    let k = at % 8;
    if k == 0 {
        byte % 2
    } else if k == 1 {
        byte / 2 % 2
    } else if k == 2 {
        byte / 4 % 2
    } else if k == 3 {
        byte / 8 % 2
    } else if k == 4 {
        byte / 16 % 2
    } else if k == 5 {
        byte / 32 % 2
    } else if k == 6 {
        byte / 64 % 2
    } else {
        byte / 128
    }
}

/// The number in the `n` bits at `at`, of which the least significant comes first.
pub open spec fn bits(p: Seq<u8>, at: int, n: int) -> int
    decreases n,
{
    if n <= 0 {
        0
    } else {
        bit(p, at) + 2 * bits(p, at + 1, n - 1)
    }
}

/// There are `n` bits at `at`.
pub open spec fn has_bits(p: Seq<u8>, at: int, n: int) -> bool {
    at + n <= 8 * p.len()
}

/// The number of bits that `x` has.
pub open spec fn bit_len(x: int) -> int
    decreases x,
{
    if x <= 0 {
        0
    } else {
        1 + bit_len(x / 2)
    }
}

/// Where a list of `left` optional code lengths ends that begins at `at`, unless the bits end
/// before.
pub open spec fn sparse_end(p: Seq<u8>, at: int, left: int) -> Option<int>
    decreases left,
{
    if left <= 0 {
        Some(at)
    } else if !has_bits(p, at, 1) {
        None
    } else if bit(p, at) == 0 {
        sparse_end(p, at + 1, left - 1)
    } else if !has_bits(p, at, 6) {
        None
    } else {
        sparse_end(p, at + 6, left - 1)
    }
}

/// Where a list of counts ends that begins at `at` and counts `left` codes, unless it counts more
/// or the bits end before.
pub open spec fn counted_end(p: Seq<u8>, at: int, left: int) -> Option<int>
    decreases 8 * p.len() - at,
{
    let n = bit_len(left);
    if left <= 0 || n <= 0 {
        Some(at)
    } else if !has_bits(p, at, n) || bits(p, at, n) > left {
        None
    } else {
        counted_end(p, at + n, left - bits(p, at, n))
    }
}

/// The number of entries of the codebook at `at`.
pub open spec fn entries(p: Seq<u8>, at: int) -> int {
    bits(p, at + 40, 24)
}

/// The number of dimensions of the codebook at `at`.
pub open spec fn dimensions(p: Seq<u8>, at: int) -> int {
    bits(p, at + 24, 16)
}

/// Where the lookup table of the codebook at `at` begins, if the codebook is read up to there.
pub open spec fn lookup_start(p: Seq<u8>, at: int) -> Option<int> {
    let lens = at + 65;
    if !has_bits(p, at, 65) || bits(p, at, 24) != 0x564342 {
        None
    } else if bit(p, at + 64) == 1 {
        if !has_bits(p, lens, 5) {
            None
        } else {
            counted_end(p, lens + 5, entries(p, at))
        }
    } else if !has_bits(p, lens, 1) {
        None
    } else if bit(p, lens) == 1 {
        sparse_end(p, lens + 1, entries(p, at))
    } else if !has_bits(p, lens + 1, 5 * entries(p, at)) {
        None
    } else {
        Some(lens + 1 + 5 * entries(p, at))
    }
}

/// `base` to the power of `n`.
pub open spec fn power(base: int, n: int) -> int
    decreases n,
{
    if n <= 0 {
        1
    } else {
        base * power(base, n - 1)
    }
}

/// The largest number from `from` on whose power of `n` is `x` or less.
pub open spec fn root_from(x: int, n: int, from: int) -> int
    decreases x - from,
{
    if from >= x || power(from + 1, n) > x {
        from
    } else {
        root_from(x, n, from + 1)
    }
}

/// The largest number whose power of `n` is `x` or less.
pub open spec fn root(x: int, n: int) -> int {
    if n == 1 {
        x
    } else {
        root_from(x, n, 0)
    }
}

/// A root that is computed in floating point is rounded down to the right number: the first root
/// is `x`; for the others `x` is a power itself, or well above one, and it is well below the next
/// one, which fits in 32 bits.
pub open spec fn root_is_clear(x: int, n: int) -> bool {
    let low = power(root(x, n), n);
    let high = power(root(x, n) + 1, n);
    &&& n >= 1
    &&& low <= x < high <= 0xFFFF_FFFF
    &&& n == 1 || (high - x) * 65536 >= high * n
    &&& x == low || (x - low) * 65536 >= low * n
}

/// The number of values in the lookup table at `table` of the codebook at `at`.
pub open spec fn lookup_values(p: Seq<u8>, at: int, table: int) -> int {
    if bits(p, table, 4) == 1 {
        root(entries(p, at), dimensions(p, at))
    } else {
        entries(p, at) * dimensions(p, at)
    }
}

/// The length in bits of a value in the lookup table at `table`.
pub open spec fn value_len(p: Seq<u8>, table: int) -> int {
    bits(p, table + 68, 4) + 1
}

/// The length in bits of what comes before the values of a lookup table: its kind in 4 bits, the
/// smallest value and the step between values in 32 each, the length of a value in 4, and whether
/// values add up in one.
pub const TABLE_HEAD_BITS: usize = 73;

/// The lookup table at `table` has values.
pub open spec fn has_values(p: Seq<u8>, table: int) -> bool {
    has_bits(p, table, TABLE_HEAD_BITS as int) && (bits(p, table, 4) == 1 || bits(p, table, 4) == 2)
}

/// The codebook at `at` can be passed over: the length of its lookup table can be counted.
pub open spec fn codebook_returns(p: Seq<u8>, at: int) -> bool {
    match lookup_start(p, at) {
        None => true,
        Some(table) => has_values(p, table) ==> {
            &&& bits(p, table, 4) == 1 ==> root_is_clear(entries(p, at), dimensions(p, at))
            &&& lookup_values(p, at, table) <= 0xFFFF_FFFF
            &&& lookup_values(p, at, table) * value_len(p, table) <= 0xFFFF_FFFF
        },
    }
}

/// Where the codebook at `at` ends, if it is read up to there.
pub open spec fn codebook_end(p: Seq<u8>, at: int) -> Option<int> {
    match lookup_start(p, at) {
        None => None,
        Some(table) => if !has_bits(p, table, 4) {
            None
        } else if bits(p, table, 4) == 0 {
            Some(table + 4)
        } else if !has_values(p, table) {
            None
        } else {
            let len = lookup_values(p, at, table) * value_len(p, table);
            if has_bits(p, table + TABLE_HEAD_BITS, len) {
                Some(table + TABLE_HEAD_BITS + len)
            } else {
                None
            }
        },
    }
}

/// `left` codebooks, the first of which is at `at`, can be passed over, as far as they are read.
pub open spec fn codebooks_return(p: Seq<u8>, at: int, left: int) -> bool
    decreases left,
{
    left > 0 ==> {
        &&& codebook_returns(p, at)
        &&& codebook_end(p, at) matches Some(next) ==> codebooks_return(p, next, left - 1)
    }
}

/// The setup header of a Vorbis stream, whose codebooks come behind its first 7 bytes, can be
/// read.
pub open spec fn setup_returns(p: Seq<u8>) -> bool {
    &&& p.len() <= 0x1000_0000
    &&& has_bits(p, 56, 8) ==> codebooks_return(p, 64, bits(p, 56, 8) + 1)
}

proof fn bits_are_bounded(p: Seq<u8>, at: int, n: int)
    requires
        0 <= n <= 32,
    ensures
        0 <= bits(p, at, n) < pow2(n as nat) <= 0x1_0000_0000,
    decreases n,
{
    lemma2_to64();
    if n > 0 {
        bits_are_bounded(p, at + 1, n - 1);
        lemma_pow2_unfold(n as nat);
    }
    if n < 32 {
        lemma_pow2_strictly_increases(n as nat, 32);
    }
}

fn read_bit(p: &[u8], at: usize) -> (r: u64)
    requires
        at < 8 * p@.len(),
    ensures
        r == bit(p@, at as int),
        r <= 1,
{
    let byte: u8 = p[at / 8];
    let k: usize = at % 8;
    let r: u8 = if k == 0 {
        byte % 2
    } else if k == 1 {
        byte / 2 % 2
    } else if k == 2 {
        byte / 4 % 2
    } else if k == 3 {
        byte / 8 % 2
    } else if k == 4 {
        byte / 16 % 2
    } else if k == 5 {
        byte / 32 % 2
    } else if k == 6 {
        byte / 64 % 2
    } else {
        byte / 128
    };
    r as u64
}

fn read_bits(p: &[u8], at: usize, n: usize) -> (r: u64)
    requires
        at + n <= 8 * p@.len() <= 0x8000_0000,
        n <= 32,
    ensures
        r == bits(p@, at as int, n as int),
        r < pow2(n as nat) <= 0x1_0000_0000,
{
    let mut r: u64 = 0;
    let mut k: usize = 0;
    while k < n
        invariant
            at + n <= 8 * p@.len() <= 0x8000_0000,
            k <= n <= 32,
            r == bits(p@, at + n - k, k as int),
        decreases n - k,
    {
        proof {
            bits_are_bounded(p@, at + n - k, k as int);
        }
        k = k + 1;
        r = read_bit(p, at + (n - k)) + 2 * r;
    }
    proof {
        bits_are_bounded(p@, at as int, n as int);
    }
    r
}

fn read_bit_len(x: u64) -> (r: usize)
    requires
        x < 0x100_0000,
    ensures
        r == bit_len(x as int),
        r <= 24,
        x > 0 ==> r > 0,
{
    let mut left: u64 = x;
    let mut n: usize = 0;
    proof {
        lemma2_to64();
    }
    while left > 0
        invariant
            n <= 24,
            n == 0 ==> left == x,
            left < pow2((24 - n) as nat),
            bit_len(x as int) == n + bit_len(left as int),
        decreases left,
    {
        proof {
            lemma2_to64();
            if n < 24 {
                lemma_pow2_unfold((24 - n) as nat);
            }
        }
        left = left / 2;
        n = n + 1;
    }
    n
}

fn read_sparse_end(p: &[u8], start: usize, count: u64) -> (r: Option<usize>)
    requires
        start <= 8 * p@.len() <= 0x8000_0000,
    ensures
        match r {
            Some(end) => sparse_end(p@, start as int, count as int) == Some(end as int) && end <= 8
                * p@.len(),
            None => sparse_end(p@, start as int, count as int) is None,
        },
{
    let total: usize = 8 * p.len();
    let mut at: usize = start;
    let mut left: u64 = count;
    while left > 0
        invariant
            total == 8 * p@.len() <= 0x8000_0000,
            at <= total,
            sparse_end(p@, start as int, count as int) == sparse_end(p@, at as int, left as int),
        decreases left,
    {
        if total - at < 1 {
            return None;
        }
        if read_bit(p, at) == 0 {
            at = at + 1;
        } else {
            if total - at < 6 {
                return None;
            }
            at = at + 6;
        }
        left = left - 1;
    }
    Some(at)
}

fn read_counted_end(p: &[u8], start: usize, count: u64) -> (r: Option<usize>)
    requires
        start <= 8 * p@.len() <= 0x8000_0000,
        count < 0x100_0000,
    ensures
        match r {
            Some(end) => counted_end(p@, start as int, count as int) == Some(end as int) && end <= 8
                * p@.len(),
            None => counted_end(p@, start as int, count as int) is None,
        },
{
    let total: usize = 8 * p.len();
    let mut at: usize = start;
    let mut left: u64 = count;
    while left > 0
        invariant
            total == 8 * p@.len() <= 0x8000_0000,
            at <= total,
            left < 0x100_0000,
            counted_end(p@, start as int, count as int) == counted_end(p@, at as int, left as int),
        decreases total - at,
    {
        let n: usize = read_bit_len(left);
        if total - at < n {
            return None;
        }
        let counted: u64 = read_bits(p, at, n);
        if counted > left {
            return None;
        }
        at = at + n;
        left = left - counted;
    }
    Some(at)
}

/// Where the lookup table of the codebook at `at` begins, if the codebook is read up to there.
fn read_lookup_start(p: &[u8], at: usize) -> (r: Option<usize>)
    requires
        at <= 8 * p@.len() <= 0x8000_0000,
    ensures
        match r {
            Some(table) => {
                &&& lookup_start(p@, at as int) == Some(table as int)
                &&& table <= 8 * p@.len()
                &&& at + 65 <= 8 * p@.len()
            },
            None => lookup_start(p@, at as int) is None,
        },
{
    proof {
        lemma2_to64();
    }
    let total: usize = 8 * p.len();
    if total - at < 65 || read_bits(p, at, 24) != 0x564342 {
        return None;
    }
    let entries: u64 = read_bits(p, at + 40, 24);
    let lens: usize = at + 65;
    if read_bit(p, at + 64) == 1 {
        if total - lens < 5 {
            return None;
        }
        read_counted_end(p, lens + 5, entries)
    } else {
        if total - lens < 1 {
            return None;
        }
        if read_bit(p, lens) == 1 {
            read_sparse_end(p, lens + 1, entries)
        } else {
            if 5 * entries > (total - lens - 1) as u64 {
                return None;
            }
            Some(lens + 1 + (5 * entries) as usize)
        }
    }
}

proof fn powers_grow(base: int, m: int, n: int)
    requires
        base >= 1,
        0 <= m <= n,
    ensures
        1 <= power(base, m) <= power(base, n),
    decreases n,
{
    if m < n {
        powers_grow(base, m, n - 1);
        assert(base * power(base, n - 1) >= power(base, n - 1)) by (nonlinear_arith)
            requires
                base >= 1,
                power(base, n - 1) >= 1,
        ;
    } else if n > 0 {
        powers_grow(base, m - 1, n - 1);
        assert(base * power(base, n - 1) >= 1) by (nonlinear_arith)
            requires
                base >= 1,
                power(base, n - 1) >= 1,
        ;
    }
}

/// `base` to the power of `n`, if that fits in 32 bits.
fn small_power(base: u64, n: u64) -> (r: Option<u64>)
    requires
        base <= 0x100_0000,
    ensures
        match r {
            Some(r) => r == power(base as int, n as int) && r <= 0xFFFF_FFFF,
            None => power(base as int, n as int) > 0xFFFF_FFFF,
        },
{
    let mut r: u64 = 1;
    let mut k: u64 = 0;
    while k < n
        invariant
            k <= n,
            base <= 0x100_0000,
            r == power(base as int, k as int),
            r <= 0xFFFF_FFFF,
        decreases n - k,
    {
        assert(base * r <= 0x100_0000 * 0xFFFF_FFFF) by (nonlinear_arith)
            requires
                base <= 0x100_0000,
                r <= 0xFFFF_FFFF,
        ;
        let next: u64 = base * r;
        if next > 0xFFFF_FFFF {
            proof {
                assert(base >= 1) by {
                    assert(base == 0 ==> base * r == 0) by (nonlinear_arith);
                }
                powers_grow(base as int, k + 1, n as int);
            }
            return None;
        }
        r = next;
        k = k + 1;
    }
    Some(r)
}

/// The largest number whose power of `n` is `x` or less, if it can be computed in floating point.
fn clear_root(x: u64, n: u64) -> (r: Option<u64>)
    requires
        x < 0x100_0000,
        n < 0x1_0000,
    ensures
        match r {
            Some(r) => root_is_clear(x as int, n as int) && r == root(x as int, n as int) && r <= x,
            None => !root_is_clear(x as int, n as int),
        },
{
    if n == 0 {
        return None;
    }
    let mut v: u64 = 0;
    if n == 1 {
        v = x;
    } else {
        let mut done = false;
        while !done && v < x
            invariant
                v <= x < 0x100_0000,
                root_from(x as int, n as int, 0) == root_from(x as int, n as int, v as int),
                done ==> power(v + 1, n as int) > x,
            decreases
                    x - v + (if done {
                        0int
                    } else {
                        1int
                    }),
        {
            match small_power(v + 1, n) {
                Some(next) if next <= x => {
                    v = v + 1;
                },
                _ => {
                    done = true;
                },
            }
        }
    }
    assert(v == root(x as int, n as int));
    let low: u64 = match small_power(v, n) {
        Some(low) => low,
        None => {
            return None;
        },
    };
    let high: u64 = match small_power(v + 1, n) {
        Some(high) => high,
        None => {
            return None;
        },
    };
    proof {
        assert(high * n <= 0xFFFF_FFFF * 0x1_0000) by (nonlinear_arith)
            requires
                high <= 0xFFFF_FFFF,
                n < 0x1_0000,
        ;
        assert(low * n <= 0xFFFF_FFFF * 0x1_0000) by (nonlinear_arith)
            requires
                low <= 0xFFFF_FFFF,
                n < 0x1_0000,
        ;
    }
    if low <= x && x < high && (n == 1 || (high - x) * 65536 >= high * n) && (x == low || (x - low)
        * 65536 >= low * n) {
        Some(v)
    } else {
        None
    }
}

/// Whether the codebook at `at` can be passed over, and where it ends, if it is read up to there.
fn check_codebook(p: &[u8], at: usize) -> (r: Option<Option<usize>>)
    requires
        at <= 8 * p@.len() <= 0x8000_0000,
    ensures
        match r {
            None => !codebook_returns(p@, at as int),
            Some(None) => codebook_returns(p@, at as int) && codebook_end(p@, at as int) is None,
            Some(Some(end)) => {
                &&& codebook_returns(p@, at as int)
                &&& codebook_end(p@, at as int) == Some(end as int)
                &&& end <= 8 * p@.len()
            },
        },
{
    proof {
        lemma2_to64();
    }
    let total: usize = 8 * p.len();
    let table: usize = match read_lookup_start(p, at) {
        Some(table) => table,
        None => {
            return Some(None);
        },
    };
    if total - table < 4 {
        return Some(None);
    }
    let kind: u64 = read_bits(p, table, 4);
    if kind == 0 {
        return Some(Some(table + 4));
    }
    if total - table < TABLE_HEAD_BITS || kind > 2 {
        return Some(None);
    }
    let entries: u64 = read_bits(p, at + 40, 24);
    let dimensions: u64 = read_bits(p, at + 24, 16);
    let value_len: u64 = read_bits(p, table + 68, 4) + 1;
    let values: u64 = if kind == 1 {
        match clear_root(entries, dimensions) {
            Some(root) => root,
            None => {
                return None;
            },
        }
    } else {
        assert(entries * dimensions <= 0x100_0000 * 0x1_0000) by (nonlinear_arith)
            requires
                entries <= 0x100_0000,
                dimensions <= 0x1_0000,
        ;
        entries * dimensions
    };
    if values > 0xFFFF_FFFF {
        return None;
    }
    assert(values * value_len <= 0xFFFF_FFFF * 16) by (nonlinear_arith)
        requires
            values <= 0xFFFF_FFFF,
            value_len <= 16,
    ;
    let len: u64 = values * value_len;
    if len > 0xFFFF_FFFF {
        return None;
    }
    if len > (total - table - TABLE_HEAD_BITS) as u64 {
        Some(None)
    } else {
        Some(Some(table + TABLE_HEAD_BITS + len as usize))
    }
}

/// Checks the setup header of a Vorbis stream.
pub(crate) fn check_setup(p: &[u8]) -> (r: bool)
    ensures
        r == setup_returns(p@),
{
    proof {
        lemma2_to64();
    }
    if p.len() > 0x1000_0000 {
        return false;
    }
    let total: usize = 8 * p.len();
    if total < 64 {
        return true;
    }
    let count: u64 = read_bits(p, 56, 8) + 1;
    let mut left: u64 = count;
    let mut at: usize = 64;
    while left > 0
        invariant
            total == 8 * p@.len() <= 0x8000_0000,
            at <= total,
            codebooks_return(p@, 64, count as int) == codebooks_return(p@, at as int, left as int),
            setup_returns(p@) == codebooks_return(p@, 64, count as int),
        decreases left,
    {
        match check_codebook(p, at) {
            None => {
                return false;
            },
            Some(None) => {
                return true;
            },
            Some(Some(end)) => {
                at = end;
            },
        }
        left = left - 1;
    }
    true
}

} // verus!
