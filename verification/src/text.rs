//! Strings: trimming, case, ordering, joining and decimal numbers.
//!
//! Strings are modelled as sequences of characters. The functions marked
//! `external_body` hand their arguments to one function of the standard library each;
//! their contracts say what that function documents.
use std::path::Path;
use vstd::prelude::*;
use vstd::relations::{
    antisymmetric, reflexive, sorted_by, strongly_connected, total_ordering, transitive,
};
use vstd::seq_lib::lemma_sorted_unique;
use vstd::string::*;

verus! {

/// The characters with the Unicode property `White_Space`.
pub open spec fn is_white_space(c: char) -> bool {
    let code = c as u32;
    ||| 0x0009 <= code <= 0x000D
    ||| code == 0x0020
    ||| code == 0x0085
    ||| code == 0x00A0
    ||| code == 0x1680
    ||| 0x2000 <= code <= 0x200A
    ||| code == 0x2028
    ||| code == 0x2029
    ||| code == 0x202F
    ||| code == 0x205F
    ||| code == 0x3000
}

/// `s` without the white space that it starts and ends with.
pub open spec fn trimmed(s: Seq<char>) -> Seq<char>
    decreases s.len(),
{
    if s.len() == 0 {
        s
    } else if is_white_space(s.first()) {
        trimmed(s.drop_first())
    } else if is_white_space(s.last()) {
        trimmed(s.drop_last())
    } else {
        s
    }
}

/// `s` holds nothing but white space.
pub open spec fn is_blank(s: Seq<char>) -> bool {
    forall|i: int| 0 <= i < s.len() ==> is_white_space(#[trigger] s[i])
}

/// The lower case of an ASCII letter; any other character itself.
pub open spec fn ascii_lower(c: char) -> char {
    if 'A' <= c <= 'Z' {
        ((c as u32 + 32) as u32) as char
    } else {
        c
    }
}

/// `s` with its ASCII letters in lower case.
pub open spec fn ascii_lowercase(s: Seq<char>) -> Seq<char> {
    s.map_values(|c: char| ascii_lower(c))
}

/// `a` comes before `b`, or is `b`, in the lexicographic order of their code points.
pub open spec fn text_le(a: Seq<char>, b: Seq<char>) -> bool
    decreases a.len(),
{
    if a.len() == 0 {
        true
    } else if b.len() == 0 {
        false
    } else if a[0] != b[0] {
        a[0] < b[0]
    } else {
        text_le(a.drop_first(), b.drop_first())
    }
}

/// The views of a sequence of strings.
pub open spec fn texts(strings: Seq<String>) -> Seq<Seq<char>> {
    strings.map_values(|s: String| s@)
}

/// Every text comes before those that follow it.
pub open spec fn is_sorted(keys: Seq<Seq<char>>) -> bool {
    forall|i: int, j: int|
        0 <= i < j < keys.len() ==> text_le(#[trigger] keys[i], #[trigger] keys[j])
}

/// The same texts in ascending order.
pub open spec fn sorted(keys: Seq<Seq<char>>) -> Seq<Seq<char>> {
    keys.sort_by(|a: Seq<char>, b: Seq<char>| text_le(a, b))
}

/// The texts one after the other, with `separator` between any two.
pub open spec fn joined(parts: Seq<Seq<char>>, separator: Seq<char>) -> Seq<char>
    decreases parts.len(),
{
    if parts.len() == 0 {
        Seq::empty()
    } else if parts.len() == 1 {
        parts[0]
    } else {
        joined(parts.drop_last(), separator) + separator + parts.last()
    }
}

/// The digit `d` as a character.
pub open spec fn digit(d: nat) -> char {
    (48 + d) as u32 as char
}

/// A natural number in decimal notation, without leading zeros.
pub open spec fn decimal_nat(n: nat) -> Seq<char>
    decreases n,
{
    if n < 10 {
        seq![digit(n)]
    } else {
        decimal_nat(n / 10).push(digit(n % 10))
    }
}

/// An integer in decimal notation.
pub open spec fn decimal(n: int) -> Seq<char> {
    if n < 0 {
        seq!['-'] + decimal_nat((-n) as nat)
    } else {
        decimal_nat(n as nat)
    }
}

/// What follows the last `/` of a path.
pub open spec fn after_last_slash(path: Seq<char>) -> Seq<char>
    decreases path.len(),
{
    if path.len() == 0 || path.last() == '/' {
        Seq::empty()
    } else {
        after_last_slash(path.drop_last()).push(path.last())
    }
}

/// The final component of a path in which `/` alone separates components: trailing
/// separators and trailing `.` components do not count, and a path that then ends in
/// `..`, or in no name at all, has none.
pub open spec fn final_component(path: Seq<char>) -> Option<Seq<char>>
    decreases path.len(),
{
    if path.len() > 0 && path.last() == '/' {
        final_component(path.drop_last())
    } else if path.len() > 1 && path.last() == '.' && path[path.len() - 2] == '/' {
        final_component(path.take(path.len() - 2))
    } else {
        let name = after_last_slash(path);
        if name == seq!['.'] || name == seq!['.', '.'] || name.len() == 0 {
            None
        } else {
            Some(name)
        }
    }
}

/// A path that every platform takes apart at `/` alone: it holds no `\`, has no `:` as its
/// second character, as after the letter of a drive, and does not start with `//`.
pub open spec fn is_portable_path(path: Seq<char>) -> bool {
    &&& !path.contains('\\')
    &&& !(path.len() > 1 && path[1] == ':')
    &&& !(path.len() > 1 && path[0] == '/' && path[1] == '/')
}

/// What asking a path for its file name can yield.
pub enum FileName {
    /// The path ends in no name.
    Missing,
    /// The name is not valid Unicode.
    NotUnicode,
    /// The name.
    Name(String),
}

/// `name` stands in `path` at `start`: at the beginning, behind a separator or behind the letter
/// of a drive. Nothing follows it there but separators and dots.
pub open spec fn ends_in_name_at(path: Seq<char>, name: Seq<char>, start: int) -> bool {
    let end = start + name.len();
    &&& 0 <= start < end <= path.len()
    &&& start == 0 || path[start - 1] == '/' || path[start - 1] == '\\' || (start == 2 && path[1]
        == ':')
    &&& path.subrange(start, end) == name
    &&& forall|i: int| end <= i < path.len() ==> #[trigger] path[i] == '/' || path[i] == '\\'
        || path[i] == '.'
}

/// `name` is the file name of `path` where `/` alone separates components: its final component, if
/// it has one.
pub open spec fn is_slash_file_name(path: Seq<char>, name: FileName) -> bool {
    match name {
        FileName::Missing => final_component(path) is None,
        FileName::NotUnicode => false,
        FileName::Name(text) => final_component(path) == Some(text@),
    }
}

/// The possible answers to the question for the file name of `path`. Which characters
/// separate components depends on the platform; a portable path leaves no choice, and on any
/// other the name is still a whole component, the last thing in the path but for separators and
/// dots. A part of a Unicode path is Unicode.
pub open spec fn may_be_file_name(path: Seq<char>, name: FileName) -> bool {
    &&& name !is NotUnicode
    &&& name matches FileName::Name(text) ==> exists|start: int|
        #[trigger] ends_in_name_at(path, text@, start)
    &&& is_portable_path(path) ==> is_slash_file_name(path, name)
}

/// `str::trim`: the slice without leading and trailing white space.
#[verifier::external_body]
pub(crate) fn trim(s: &str) -> (r: &str)
    ensures
        r@ == trimmed(s@),
{
    s.trim()
}

/// `str::to_ascii_lowercase`: a copy in which the letters `A` to `Z` are replaced by `a`
/// to `z` and nothing else is changed.
#[verifier::external_body]
pub(crate) fn to_ascii_lowercase(s: &str) -> (r: String)
    ensures
        r@ == ascii_lowercase(s@),
{
    s.to_ascii_lowercase()
}

/// `slice::sort_unstable` on strings: the same strings, in ascending lexicographic
/// order of their code points.
#[verifier::external_body]
fn sort_unstable(keys: &mut Vec<String>)
    ensures
        is_sorted(texts(final(keys)@)),
        texts(final(keys)@).to_multiset() == texts(old(keys)@).to_multiset(),
{
    keys.sort_unstable()
}

/// `Path::file_name`: the final component of the path, if it has one, which is Unicode like
/// the path itself. Of a path that is not portable it is left open which of the possible
/// separators that component starts behind, since that depends on the platform.
#[verifier::external_body]
fn path_file_name(path: &str) -> (r: FileName)
    ensures
        may_be_file_name(path@, r),
{
    match Path::new(path).file_name() {
        None => FileName::Missing,
        Some(name) => match name.to_str() {
            None => FileName::NotUnicode,
            Some(name) => FileName::Name(name.to_owned()),
        },
    }
}

/// The file name of a path, as the platform takes the path apart.
pub fn file_name(path: &str) -> (r: FileName)
    ensures
        may_be_file_name(path@, r),
{
    path_file_name(path)
}

/// `name` is what [`file_name`] gave for `path`.
pub open spec fn is_file_name_of(path: Seq<char>, name: FileName) -> bool {
    exists|asked: &str| asked@ == path && #[trigger] call_ensures(file_name, (asked,), name)
}

/// Two strings hold the same characters.
pub(crate) fn same_text(a: &str, b: &str) -> (r: bool)
    ensures
        r == (a@ == b@),
{
    a.to_owned() == b.to_owned()
}

/// `value` between `before` and `after`.
pub(crate) fn enclose(before: &str, value: &str, after: &str) -> (r: String)
    ensures
        r@ == before@ + value@ + after@,
{
    let mut text = before.to_owned();
    text.append(value);
    text.append(after);
    text
}

fn digit_text(d: u64) -> (r: &'static str)
    requires
        d < 10,
    ensures
        r@ == seq![digit(d as nat)],
{
    proof {
        reveal_strlit("0");
        reveal_strlit("1");
        reveal_strlit("2");
        reveal_strlit("3");
        reveal_strlit("4");
        reveal_strlit("5");
        reveal_strlit("6");
        reveal_strlit("7");
        reveal_strlit("8");
        reveal_strlit("9");
    }
    match d {
        0 => "0",
        1 => "1",
        2 => "2",
        3 => "3",
        4 => "4",
        5 => "5",
        6 => "6",
        7 => "7",
        8 => "8",
        _ => "9",
    }
}

/// An unsigned number in decimal notation.
pub(crate) fn unsigned_text(n: u64) -> (r: String)
    ensures
        r@ == decimal_nat(n as nat),
    decreases n,
{
    if n < 10 {
        digit_text(n).to_owned()
    } else {
        let mut text = unsigned_text(n / 10);
        text.append(digit_text(n % 10));
        text
    }
}

/// A signed number in decimal notation.
pub(crate) fn signed_text(n: i64) -> (r: String)
    ensures
        r@ == decimal(n as int),
{
    if n < 0 {
        let magnitude: u64 = (-(n + 1)) as u64 + 1;
        let mut text = "-".to_owned();
        proof {
            reveal_strlit("-");
        }
        text.append(unsigned_text(magnitude).as_str());
        text
    } else {
        unsigned_text(n as u64)
    }
}

/// The strings one after the other, with `separator` between any two.
pub(crate) fn join(parts: &Vec<String>, separator: &str) -> (r: String)
    ensures
        r@ == joined(texts(parts@), separator@),
{
    let mut text = String::new();
    let ghost all = texts(parts@);
    for i in 0..parts.len()
        invariant
            all == texts(parts@),
            text@ == joined(all.take(i as int), separator@),
    {
        proof {
            assert(all.take(i + 1).drop_last() == all.take(i as int));
            assert(all.take(i + 1).last() == parts[i as int]@);
        }
        if i > 0 {
            text.append(separator);
        }
        text.append(parts[i].as_str());
        proof {
            assert(text@ == joined(all.take(i + 1), separator@));
        }
    }
    proof {
        assert(all.take(parts.len() as int) == all);
    }
    text
}

/// Sorts strings in ascending order.
pub(crate) fn sort(keys: &mut Vec<String>)
    ensures
        texts(final(keys)@) == sorted(texts(old(keys)@)),
{
    sort_unstable(keys);
    proof {
        sorted_is_unique(texts(old(keys)@), texts(keys@));
    }
}

proof fn text_le_reflexive(a: Seq<char>)
    ensures
        text_le(a, a),
    decreases a.len(),
{
    if a.len() > 0 {
        text_le_reflexive(a.drop_first());
    }
}

proof fn text_le_antisymmetric(a: Seq<char>, b: Seq<char>)
    requires
        text_le(a, b),
        text_le(b, a),
    ensures
        a == b,
    decreases a.len(),
{
    if a.len() > 0 && b.len() > 0 {
        text_le_antisymmetric(a.drop_first(), b.drop_first());
        assert(a == seq![a[0]] + a.drop_first());
        assert(b == seq![b[0]] + b.drop_first());
    } else {
        assert(a == b);
    }
}

proof fn text_le_transitive(a: Seq<char>, b: Seq<char>, c: Seq<char>)
    requires
        text_le(a, b),
        text_le(b, c),
    ensures
        text_le(a, c),
    decreases a.len(),
{
    if a.len() > 0 && b.len() > 0 && c.len() > 0 && a[0] == b[0] && b[0] == c[0] {
        text_le_transitive(a.drop_first(), b.drop_first(), c.drop_first());
    }
}

proof fn text_le_connected(a: Seq<char>, b: Seq<char>)
    ensures
        text_le(a, b) || text_le(b, a),
    decreases a.len(),
{
    if a.len() > 0 && b.len() > 0 && a[0] == b[0] {
        text_le_connected(a.drop_first(), b.drop_first());
    }
}

proof fn text_le_total()
    ensures
        total_ordering(|a: Seq<char>, b: Seq<char>| text_le(a, b)),
{
    let le = |a: Seq<char>, b: Seq<char>| text_le(a, b);
    assert(reflexive(le)) by {
        assert forall|a: Seq<char>| #[trigger] le(a, a) by {
            text_le_reflexive(a);
        }
    }
    assert(antisymmetric(le)) by {
        assert forall|a: Seq<char>, b: Seq<char>| #[trigger]
            le(a, b) && #[trigger] le(b, a) implies a == b by {
            text_le_antisymmetric(a, b);
        }
    }
    assert(transitive(le)) by {
        assert forall|a: Seq<char>, b: Seq<char>, c: Seq<char>| #[trigger]
            le(a, b) && #[trigger] le(b, c) implies le(a, c) by {
            text_le_transitive(a, b, c);
        }
    }
    assert(strongly_connected(le)) by {
        assert forall|a: Seq<char>, b: Seq<char>| #[trigger] le(a, b) || #[trigger] le(b, a) by {
            text_le_connected(a, b);
        }
    }
}

/// Sorting yields the same texts in ascending order.
pub proof fn sorted_is_sorted(keys: Seq<Seq<char>>)
    ensures
        is_sorted(sorted(keys)),
        sorted(keys).to_multiset() == keys.to_multiset(),
        sorted(keys).len() == keys.len(),
        forall|k: Seq<char>| #[trigger] sorted(keys).contains(k) <==> keys.contains(k),
{
    let le = |a: Seq<char>, b: Seq<char>| text_le(a, b);
    text_le_total();
    keys.lemma_sort_by_ensures(le);
    keys.to_multiset_ensures();
    sorted(keys).to_multiset_ensures();
    assert forall|i: int, j: int| 0 <= i < j < sorted(keys).len() implies text_le(
        #[trigger] sorted(keys)[i],
        #[trigger] sorted(keys)[j],
    ) by {
        assert(le(sorted(keys)[i], sorted(keys)[j]));
    }
    assert forall|k: Seq<char>| #[trigger] sorted(keys).contains(k) <==> keys.contains(k) by {
        assert(sorted(keys).contains(k) <==> sorted(keys).to_multiset().count(k) > 0);
        assert(keys.contains(k) <==> keys.to_multiset().count(k) > 0);
    }
}

/// There is one way only to put texts in ascending order.
pub proof fn sorted_is_unique(keys: Seq<Seq<char>>, other: Seq<Seq<char>>)
    requires
        is_sorted(other),
        other.to_multiset() == keys.to_multiset(),
    ensures
        other == sorted(keys),
{
    let le = |a: Seq<char>, b: Seq<char>| text_le(a, b);
    text_le_total();
    keys.lemma_sort_by_ensures(le);
    assert(sorted_by(other, le));
    lemma_sorted_unique(other, keys.sort_by(le), le);
}

/// Trimming leaves nothing exactly when there was nothing but white space.
pub proof fn blank_iff_trimmed_empty(s: Seq<char>)
    ensures
        is_blank(s) <==> trimmed(s).len() == 0,
    decreases s.len(),
{
    if s.len() > 0 {
        if is_white_space(s.first()) {
            blank_iff_trimmed_empty(s.drop_first());
            assert(is_blank(s) ==> is_blank(s.drop_first()));
            assert(is_blank(s.drop_first()) ==> is_blank(s)) by {
                if is_blank(s.drop_first()) {
                    assert forall|i: int| 0 <= i < s.len() implies is_white_space(
                        #[trigger] s[i],
                    ) by {
                        if i > 0 {
                            assert(s.drop_first()[i - 1] == s[i]);
                        }
                    }
                }
            }
        } else if is_white_space(s.last()) {
            blank_iff_trimmed_empty(s.drop_last());
            assert(!is_white_space(s.drop_last()[0]));
        }
    }
}

} // verus!
