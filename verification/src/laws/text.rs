//! Laws of the texts that keys, names and messages are made of.
use vstd::prelude::*;

use crate::text::{
    after_last_slash, ascii_lowercase, decimal, decimal_nat, final_component, is_blank,
    is_portable_path, is_white_space, joined, text_le, trimmed,
};

verus! {

/// Of the visible ASCII characters none is white space; the space, the tabulator and the ends of
/// lines are.
pub proof fn visible_characters_are_no_white_space(c: char)
    ensures
        '!' <= c <= '~' ==> !is_white_space(c),
        c == ' ' || c == '\t' || c == '\n' || c == '\r' ==> is_white_space(c),
{
}

/// `s` is `inner` between `before` and `behind`, which hold nothing but white space.
pub open spec fn is_between_blanks(
    s: Seq<char>,
    before: Seq<char>,
    inner: Seq<char>,
    behind: Seq<char>,
) -> bool {
    &&& s == before + inner + behind
    &&& is_blank(before)
    &&& is_blank(behind)
}

proof fn trimmed_is_between_blanks(s: Seq<char>) -> (r: (Seq<char>, Seq<char>))
    ensures
        is_between_blanks(s, r.0, trimmed(s), r.1),
    decreases s.len(),
{
    let none = Seq::<char>::empty();
    if s.len() == 0 {
        assert(s == none + s + none);
        (none, none)
    } else if is_white_space(s.first()) {
        let (before, behind) = trimmed_is_between_blanks(s.drop_first());
        let longer = seq![s.first()] + before;
        assert(is_blank(longer)) by {
            assert forall|i: int| 0 <= i < longer.len() implies is_white_space(
                #[trigger] longer[i],
            ) by {
                if i > 0 {
                    assert(longer[i] == before[i - 1]);
                }
            }
        }
        assert(s == seq![s.first()] + s.drop_first());
        assert(s == longer + trimmed(s) + behind);
        (longer, behind)
    } else if is_white_space(s.last()) {
        let (before, behind) = trimmed_is_between_blanks(s.drop_last());
        let longer = behind.push(s.last());
        assert(is_blank(longer)) by {
            assert forall|i: int| 0 <= i < longer.len() implies is_white_space(
                #[trigger] longer[i],
            ) by {
                if i < behind.len() {
                    assert(longer[i] == behind[i]);
                }
            }
        }
        assert(s == s.drop_last().push(s.last()));
        assert(s == before + trimmed(s) + longer);
        (before, longer)
    } else {
        assert(s == none + s + none);
        (none, none)
    }
}

proof fn trimmed_has_no_white_ends(s: Seq<char>)
    ensures
        trimmed(s).len() > 0 ==> !is_white_space(trimmed(s).first()) && !is_white_space(
            trimmed(s).last(),
        ),
    decreases s.len(),
{
    if s.len() > 0 {
        if is_white_space(s.first()) {
            trimmed_has_no_white_ends(s.drop_first());
        } else if is_white_space(s.last()) {
            trimmed_has_no_white_ends(s.drop_last());
        }
    }
}

/// Trimming takes white space off both ends, all of it and nothing else.
pub proof fn trimming_takes_white_space_off_both_ends(s: Seq<char>)
    ensures
        exists|before: Seq<char>, behind: Seq<char>| #[trigger]
            is_between_blanks(s, before, trimmed(s), behind),
        trimmed(s).len() > 0 ==> !is_white_space(trimmed(s).first()) && !is_white_space(
            trimmed(s).last(),
        ),
{
    let (before, behind) = trimmed_is_between_blanks(s);
    assert(is_between_blanks(s, before, trimmed(s), behind));
    trimmed_has_no_white_ends(s);
}

/// Lower case changes the letters from A to Z, each into its own, and keeps every other character
/// and the length.
pub proof fn lower_case_changes_ascii_letters_only(s: Seq<char>, i: int)
    requires
        0 <= i < s.len(),
    ensures
        ascii_lowercase(s).len() == s.len(),
        !('A' <= s[i] <= 'Z') ==> ascii_lowercase(s)[i] == s[i],
        'A' <= s[i] <= 'Z' ==> 'a' <= ascii_lowercase(s)[i] <= 'z' && ascii_lowercase(s)[i] as int
            - 'a' as int == s[i] as int - 'A' as int,
{
}

/// The first `n` characters of two texts are the same.
pub open spec fn agree_up_to(a: Seq<char>, b: Seq<char>, n: int) -> bool {
    &&& 0 <= n <= a.len()
    &&& n <= b.len()
    &&& forall|i: int| 0 <= i < n ==> #[trigger] a[i] == b[i]
}

/// Texts are ordered like words in a dictionary, by their code points: one comes before another
/// where the two first differ, or as its beginning.
pub proof fn texts_are_ordered_where_they_first_differ(a: Seq<char>, b: Seq<char>, n: int)
    requires
        agree_up_to(a, b, n),
        n == a.len() || n == b.len() || a[n] != b[n],
    ensures
        n == a.len() ==> text_le(a, b),
        n == b.len() && n < a.len() ==> !text_le(a, b),
        n < a.len() && n < b.len() ==> (text_le(a, b) <==> (a[n] as int) < (b[n] as int)),
    decreases n,
{
    if n > 0 {
        assert(a[0] == b[0]);
        assert forall|i: int| 0 <= i < n - 1 implies #[trigger] a.drop_first()[i]
            == b.drop_first()[i] by {
            assert(a[i + 1] == b[i + 1]);
        }
        texts_are_ordered_where_they_first_differ(a.drop_first(), b.drop_first(), n - 1);
    }
}

/// A single text is joined to itself, none to nothing, and lists of texts are joined with the
/// separator between them.
pub proof fn separator_stands_between_parts(
    first: Seq<Seq<char>>,
    second: Seq<Seq<char>>,
    part: Seq<char>,
    separator: Seq<char>,
)
    requires
        first.len() > 0,
        second.len() > 0,
    ensures
        joined(seq![part], separator) == part,
        joined(Seq::<Seq<char>>::empty(), separator).len() == 0,
        joined(first + second, separator) == joined(first, separator) + separator + joined(
            second,
            separator,
        ),
    decreases second.len(),
{
    let all = first + second;
    assert(all.drop_last() == first + second.drop_last());
    assert(all.last() == second.last());
    if second.len() == 1 {
        assert(all.drop_last() == first);
    } else {
        separator_stands_between_parts(first, second.drop_last(), part, separator);
        assert(joined(all, separator) == joined(first, separator) + separator + joined(
            second,
            separator,
        ));
    }
}

/// The number that digits stand for.
pub open spec fn value_of_digits(digits: Seq<char>) -> int
    decreases digits.len(),
{
    if digits.len() == 0 {
        0
    } else {
        10 * value_of_digits(digits.drop_last()) + (digits.last() as int - '0' as int)
    }
}

proof fn digits_are_digits(n: nat)
    ensures
        decimal_nat(n).len() > 0,
        value_of_digits(decimal_nat(n)) == n,
        forall|i: int| 0 <= i < decimal_nat(n).len() ==> '0' <= #[trigger] decimal_nat(n)[i] <= '9',
        n > 0 ==> decimal_nat(n)[0] != '0',
    decreases n,
{
    if n < 10 {
        let digits = decimal_nat(n);
        assert(digits.drop_last() == Seq::<char>::empty());
        assert(value_of_digits(digits.drop_last()) == 0);
    } else {
        digits_are_digits(n / 10);
        let digits = decimal_nat(n);
        assert(digits.drop_last() == decimal_nat(n / 10));
    }
}

/// A number is written in digits that stand for it, without a zero in front unless it is zero, and
/// with a sign in front if it is negative.
pub proof fn numbers_are_written_in_digits(n: int)
    ensures
        ({
            let digits = if n < 0 {
                decimal(n).skip(1)
            } else {
                decimal(n)
            };
            &&& n < 0 ==> decimal(n).len() > 0 && decimal(n)[0] == '-'
            &&& digits.len() > 0
            &&& value_of_digits(digits) == (if n < 0 {
                -n
            } else {
                n
            })
            &&& forall|i: int| 0 <= i < digits.len() ==> '0' <= #[trigger] digits[i] <= '9'
            &&& n != 0 ==> digits[0] != '0'
        }),
{
    if n < 0 {
        digits_are_digits((-n) as nat);
        assert(decimal(n).skip(1) == decimal_nat((-n) as nat));
    } else {
        digits_are_digits(n as nat);
    }
}

/// Separators and dots for the directory itself make no difference behind a path, and a path that
/// ends in the directory above, or in nothing, has no final component.
pub proof fn trailing_separators_make_no_difference(path: Seq<char>)
    ensures
        final_component(path.push('/')) == final_component(path),
        final_component(path.push('/').push('.')) == final_component(path),
        final_component(path.push('/').push('.').push('.')) is None,
        final_component(Seq::empty()) is None,
        final_component(seq!['.', '.']) is None,
        final_component(seq!['.']) is None,
{
    assert(path.push('/').drop_last() == path);
    let dot = path.push('/').push('.');
    assert(dot.take(dot.len() - 2) == path);
    let up = path.push('/').push('.').push('.');
    assert(up.drop_last() == dot);
    assert(dot.drop_last() == path.push('/'));
    reveal_with_fuel(after_last_slash, 4);
    assert(after_last_slash(path.push('/')) == Seq::<char>::empty());
    assert(after_last_slash(dot) == seq!['.']);
    assert(after_last_slash(up) == seq!['.', '.']);
    assert(after_last_slash(Seq::empty()) == Seq::<char>::empty());
    let two = seq!['.', '.'];
    let one = seq!['.'];
    assert(two.drop_last() == one);
    assert(one.drop_last() == Seq::<char>::empty());
    assert(after_last_slash(one) == one);
    assert(after_last_slash(two) == two);
}

/// White space is what Unicode says it is: among the characters of one byte six controls, the space
/// and the space that does not break, and among the others 17 spaces and separators.
pub proof fn white_space_is_told_by_its_code(c: char)
    ensures
        ({
            let code = c as u32;
            is_white_space(c) <==> if code <= 0xFF {
                9 <= code <= 13 || code == 32 || code == 133 || code == 160
            } else {
                ||| code == 0x1680
                ||| 0x2000 <= code < 0x200B
                ||| 0x2028 <= code < 0x202A
                ||| code == 0x202F
                ||| code == 0x205F
                ||| code == 0x3000
            }
        }),
{
}

/// A path is portable exactly if it holds no backslash and begins neither with the letter of a
/// drive nor with two slashes, at which some platform takes it apart.
pub proof fn portable_paths_are_taken_apart_at_slashes(path: Seq<char>)
    ensures
        is_portable_path(path) <==> {
            &&& forall|i: int| 0 <= i < path.len() ==> #[trigger] path[i] != '\\'
            &&& path.len() < 2 || path[1] != ':'
            &&& path.len() < 2 || path[0] != '/' || path[1] != '/'
        },
{
    if exists|i: int| 0 <= i < path.len() && #[trigger] path[i] == '\\' {
        let i = choose|i: int| 0 <= i < path.len() && #[trigger] path[i] == '\\';
        assert(path.contains(path[i]));
    }
}

} // verus!
