//! Character classes of the callsign grammar, over ASCII code points,
//! together with case folding to upper case.

use vstd::prelude::*;

verus! {

/// An ASCII decimal digit `0`-`9`.
pub open spec fn is_digit(c: char) -> bool {
    48 <= c as int && c as int <= 57
}

/// An ASCII upper-case letter `A`-`Z`.
pub open spec fn is_upper_letter(c: char) -> bool {
    65 <= c as int && c as int <= 90
}

/// An ASCII lower-case letter `a`-`z`.
pub open spec fn is_lower_letter(c: char) -> bool {
    97 <= c as int && c as int <= 122
}

/// An ASCII letter of either case.
pub open spec fn is_letter(c: char) -> bool {
    is_upper_letter(c) || is_lower_letter(c)
}

/// A letter or a digit.
pub open spec fn is_alnum(c: char) -> bool {
    is_letter(c) || is_digit(c)
}

/// The upper-case image of a character: lower-case letters are shifted to
/// their upper-case counterpart, every other character is unchanged.
pub open spec fn to_upper(c: char) -> char {
    if is_lower_letter(c) {
        (c as int - 32) as char
    } else {
        c
    }
}

/// The upper-case image of a whole sequence of characters.
pub open spec fn upper_seq(s: Seq<char>) -> Seq<char> {
    s.map_values(|c: char| to_upper(c))
}

/// Two characters are equal up to letter case.
pub open spec fn case_eq_char(a: char, b: char) -> bool {
    to_upper(a) == to_upper(b)
}

/// Two sequences are equal up to letter case, position by position.
pub open spec fn case_eq(s: Seq<char>, t: Seq<char>) -> bool {
    &&& s.len() == t.len()
    &&& forall|i: int| 0 <= i < s.len() ==> case_eq_char(s[i], t[i])
}

/// Case folding keeps each character class and never introduces or removes
/// a `/`; it is idempotent.
pub proof fn lemma_to_upper_classes(c: char)
    ensures
        is_digit(to_upper(c)) == is_digit(c),
        is_letter(to_upper(c)) == is_letter(c),
        is_alnum(to_upper(c)) == is_alnum(c),
        to_upper(c) == '/' <==> c == '/',
        to_upper(to_upper(c)) == to_upper(c),
{
}

/// Characters that are equal up to case lie in the same character classes,
/// and `/` is only case-equal to itself.
pub proof fn lemma_case_eq_char_classes(a: char, b: char)
    requires
        case_eq_char(a, b),
    ensures
        is_digit(a) == is_digit(b),
        is_letter(a) == is_letter(b),
        is_alnum(a) == is_alnum(b),
        a == '/' <==> b == '/',
{
}

/// Whether `c` is an ASCII digit.
pub fn digit_char(c: char) -> (b: bool)
    ensures
        b == is_digit(c),
{
    let n = c as u32;
    48 <= n && n <= 57
}

/// Whether `c` is an ASCII letter.
pub fn letter_char(c: char) -> (b: bool)
    ensures
        b == is_letter(c),
{
    let n = c as u32;
    (65 <= n && n <= 90) || (97 <= n && n <= 122)
}

/// Whether `c` is an ASCII letter or digit.
pub fn alnum_char(c: char) -> (b: bool)
    ensures
        b == is_alnum(c),
{
    letter_char(c) || digit_char(c)
}

/// The upper-case image of a single character.
pub fn upper_char(c: char) -> (r: char)
    ensures
        r == to_upper(c),
{
    let n = c as u32;
    if 97 <= n && n <= 122 {
        ((n - 32) as u8) as char
    } else {
        c
    }
}

} // verus!
