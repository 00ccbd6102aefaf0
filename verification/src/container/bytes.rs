//! Numbers and tags in a sequence of bytes.
use vstd::prelude::*;

verus! {

/// The bytes `a b c d` stand at `at`.
pub open spec fn tag_at(s: Seq<u8>, at: int, a: u8, b: u8, c: u8, d: u8) -> bool {
    &&& 0 <= at
    &&& at + 4 <= s.len()
    &&& s[at] == a
    &&& s[at + 1] == b
    &&& s[at + 2] == c
    &&& s[at + 3] == d
}

/// Whether the bytes `a b c d` stand at `at`.
pub(crate) fn has_tag(s: &[u8], at: usize, a: u8, b: u8, c: u8, d: u8) -> (r: bool)
    ensures
        r == tag_at(s@, at as int, a, b, c, d),
{
    at <= s.len() && s.len() - at >= 4 && s[at] == a && s[at + 1] == b && s[at + 2] == c && s[at
        + 3] == d
}

/// The number that begins with `first` and goes on with the `n` bytes at `at`, of which the most
/// significant comes first.
pub open spec fn number_from(first: int, s: Seq<u8>, at: int, n: int) -> int
    decreases n,
{
    if n <= 0 {
        first
    } else {
        number_from(first, s, at, n - 1) * 256 + s[at + n - 1]
    }
}

/// The number in the `n` bytes at `at`, of which the most significant comes first.
pub open spec fn number(s: Seq<u8>, at: int, n: int) -> int {
    number_from(0, s, at, n)
}

/// The number in the 2 bytes at `at`, of which the least significant comes first.
pub open spec fn le16(s: Seq<u8>, at: int) -> int {
    s[at + 1] * 256 + s[at]
}

/// The number in the 4 bytes at `at`, of which the least significant comes first.
pub open spec fn le32(s: Seq<u8>, at: int) -> int {
    le16(s, at + 2) * 65536 + le16(s, at)
}

/// One more than the largest number of `n` bytes, for up to 8 of them.
pub open spec fn capacity(n: int) -> int {
    if n <= 0 {
        1
    } else if n == 1 {
        0x100
    } else if n == 2 {
        0x1_0000
    } else if n == 3 {
        0x100_0000
    } else if n == 4 {
        0x1_0000_0000
    } else if n == 5 {
        0x100_0000_0000
    } else if n == 6 {
        0x1_0000_0000_0000
    } else if n == 7 {
        0x100_0000_0000_0000
    } else {
        0x1_0000_0000_0000_0000
    }
}

/// A number of `n` bytes after a first one is less than the largest of `n + 1` bytes.
pub proof fn number_is_bounded(first: int, s: Seq<u8>, at: int, n: int)
    requires
        0 <= first < 256,
        0 <= n <= 7,
    ensures
        0 <= number_from(first, s, at, n) < capacity(n + 1),
        first == 0 ==> number_from(first, s, at, n) < capacity(n),
    decreases n,
{
    if n > 0 {
        number_is_bounded(first, s, at, n - 1);
    }
}

/// Reads the number that begins with `first` and goes on with the `n` bytes at `at`.
pub(crate) fn read_number_from(first: u8, s: &[u8], at: usize, n: usize) -> (r: u64)
    requires
        at + n <= s.len(),
        n <= 7 || (n == 8 && first == 0),
    ensures
        r == number_from(first as int, s@, at as int, n as int),
{
    let mut r: u64 = first as u64;
    for k in 0..n
        invariant
            at + n <= s.len(),
            n <= 7 || (n == 8 && first == 0),
            r == number_from(first as int, s@, at as int, k as int),
    {
        proof {
            number_is_bounded(first as int, s@, at as int, k as int);
        }
        r = r * 256 + s[at + k] as u64;
    }
    r
}

/// Reads the number in the `n` bytes at `at`.
pub(crate) fn read_number(s: &[u8], at: usize, n: usize) -> (r: u64)
    requires
        at + n <= s.len(),
        n <= 8,
    ensures
        r == number(s@, at as int, n as int),
        r < capacity(n as int),
{
    proof {
        if n > 0 {
            number_is_bounded(0, s@, at as int, n - 1);
        }
    }
    read_number_from(0, s, at, n)
}

/// Reads the number in the 2 bytes at `at`, of which the least significant comes first.
pub(crate) fn read_le16(s: &[u8], at: usize) -> (r: u32)
    requires
        at + 2 <= s.len(),
    ensures
        r == le16(s@, at as int),
        r < 65536,
{
    s[at + 1] as u32 * 256 + s[at] as u32
}

/// Reads the number in the 4 bytes at `at`, of which the least significant comes first.
pub(crate) fn read_le32(s: &[u8], at: usize) -> (r: u32)
    requires
        at + 4 <= s.len(),
    ensures
        r == le32(s@, at as int),
{
    read_le16(s, at + 2) * 65536 + read_le16(s, at)
}

} // verus!
