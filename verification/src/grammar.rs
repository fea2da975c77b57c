//! The two validity predicates for a base callsign: the permissive
//! alphanumeric-mix rule and the regional grammar, each as a spec-level
//! predicate with a verified executable checker.

use vstd::prelude::*;

use crate::Mode;
use crate::chars::{
    alnum_char, digit_char, is_alnum, is_digit, is_letter, letter_char, to_upper, upper_char,
    upper_seq,
};
use vstd::string::StrSliceExecFns;

verus! {

/// Every character of `s` is a letter or a digit.
pub open spec fn all_alnum(s: Seq<char>) -> bool {
    forall|i: int| 0 <= i < s.len() ==> is_alnum(#[trigger] s[i])
}

/// Every character of `s` is a letter.
pub open spec fn all_letters(s: Seq<char>) -> bool {
    forall|i: int| 0 <= i < s.len() ==> is_letter(#[trigger] s[i])
}

/// Some character of `s` is a letter.
pub open spec fn has_letter(s: Seq<char>) -> bool {
    exists|i: int| 0 <= i < s.len() && is_letter(#[trigger] s[i])
}

/// Some character of `s` is a digit.
pub open spec fn has_digit(s: Seq<char>) -> bool {
    exists|i: int| 0 <= i < s.len() && is_digit(#[trigger] s[i])
}

/// Permissive validity: non-empty, all letters and digits, with at least
/// one letter and at least one digit.
pub open spec fn permissive_valid(s: Seq<char>) -> bool {
    &&& s.len() > 0
    &&& all_alnum(s)
    &&& has_letter(s)
    &&& has_digit(s)
}

/// A regional-prefix letter: `G` or `M`, in either case.
pub open spec fn is_region_letter(c: char) -> bool {
    to_upper(c) == 'G' || to_upper(c) == 'M'
}

/// A digit in the range `0`-`8` (`9` is excluded by the regional grammar).
pub open spec fn is_digit_0_to_8(c: char) -> bool {
    48 <= c as int && c as int <= 56
}

/// The single-letter regional form: `G` or `M`, one digit `0`-`8`, then
/// 2 to 3 letters.
pub open spec fn region_form(s: Seq<char>) -> bool {
    &&& (s.len() == 4 || s.len() == 5)
    &&& is_region_letter(s[0])
    &&& is_digit_0_to_8(s[1])
    &&& all_letters(s.subrange(2, s.len() as int))
}

/// The intermediate form: the literal `2E` (case-insensitive in the
/// letter), one digit `0` or `1`, then 2 to 3 letters.
pub open spec fn intermediate_form(s: Seq<char>) -> bool {
    &&& (s.len() == 5 || s.len() == 6)
    &&& s[0] == '2'
    &&& to_upper(s[1]) == 'E'
    &&& (s[2] == '0' || s[2] == '1')
    &&& all_letters(s.subrange(3, s.len() as int))
}

/// Regional validity: one of the two regional grammar forms.
pub open spec fn regional_valid(s: Seq<char>) -> bool {
    region_form(s) || intermediate_form(s)
}

/// The validity predicate selected by `mode`.
pub open spec fn mode_valid(s: Seq<char>, mode: Mode) -> bool {
    match mode {
        Mode::Permissive => permissive_valid(s),
        Mode::Regional => regional_valid(s),
    }
}

/// A regionally valid base stays regionally valid after case folding to
/// upper case, and folding it again changes nothing.
pub proof fn lemma_regional_valid_upper(s: Seq<char>)
    ensures
        regional_valid(upper_seq(s)) == regional_valid(s),
        upper_seq(upper_seq(s)) == upper_seq(s),
{
    assert(upper_seq(s).len() == s.len());
    assert forall|i: int| 0 <= i < s.len() implies #[trigger] upper_seq(s)[i] == to_upper(s[i]) by {}
    crate::chars::lemma_to_upper_classes(s[1]);
    assert(upper_seq(upper_seq(s)) =~= upper_seq(s)) by {
        assert forall|i: int| 0 <= i < s.len() implies #[trigger] upper_seq(upper_seq(s))[i]
            == upper_seq(s)[i] by {
            crate::chars::lemma_to_upper_classes(s[i]);
        }
    }
    if s.len() == 4 || s.len() == 5 || s.len() == 6 {
        let u = upper_seq(s);
        assert(u.subrange(2, u.len() as int) =~= upper_seq(s.subrange(2, s.len() as int)));
        assert(u.subrange(3, u.len() as int) =~= upper_seq(s.subrange(3, s.len() as int)));
        assert(all_letters(s.subrange(2, s.len() as int)) == all_letters(
            u.subrange(2, u.len() as int),
        )) by {
            lemma_all_letters_upper(s.subrange(2, s.len() as int));
        }
        assert(all_letters(s.subrange(3, s.len() as int)) == all_letters(
            u.subrange(3, u.len() as int),
        )) by {
            lemma_all_letters_upper(s.subrange(3, s.len() as int));
        }
        crate::chars::lemma_to_upper_classes(s[0]);
    }
}

/// Case folding a sequence preserves the all-letters property.
pub proof fn lemma_all_letters_upper(s: Seq<char>)
    ensures
        all_letters(upper_seq(s)) == all_letters(s),
{
    assert forall|i: int| 0 <= i < s.len() implies is_letter(#[trigger] upper_seq(s)[i])
        == is_letter(s[i]) by {
        crate::chars::lemma_to_upper_classes(s[i]);
    }
    if all_letters(s) {
        assert forall|i: int| 0 <= i < upper_seq(s).len() implies is_letter(
            #[trigger] upper_seq(s)[i],
        ) by {
            crate::chars::lemma_to_upper_classes(s[i]);
        }
    }
    if all_letters(upper_seq(s)) {
        assert forall|i: int| 0 <= i < s.len() implies is_letter(#[trigger] s[i]) by {
            assert(is_letter(upper_seq(s)[i]));
            crate::chars::lemma_to_upper_classes(s[i]);
        }
    }
}

/// Whether `input` contains at least one letter and at least one digit.
pub fn contains_both_letter_and_digit(input: &str) -> (b: bool)
    ensures
        b == (has_letter(input@) && has_digit(input@)),
{
    let n = input.unicode_len();
    let mut i: usize = 0;
    let mut letter = false;
    let mut digit = false;
    while i < n
        invariant
            i <= n,
            n == input@.len(),
            letter == exists|j: int| 0 <= j < i && is_letter(#[trigger] input@[j]),
            digit == exists|j: int| 0 <= j < i && is_digit(#[trigger] input@[j]),
        decreases n - i,
    {
        let c = input.get_char(i);
        if letter_char(c) {
            letter = true;
            assert(is_letter(input@[i as int]));
        }
        if digit_char(c) {
            digit = true;
            assert(is_digit(input@[i as int]));
        }
        i += 1;
    }
    letter && digit
}

/// Whether every character of `input` is a letter or a digit.
pub fn all_alnum_str(input: &str) -> (b: bool)
    ensures
        b == all_alnum(input@),
{
    let n = input.unicode_len();
    let mut i: usize = 0;
    while i < n
        invariant
            i <= n,
            n == input@.len(),
            forall|j: int| 0 <= j < i ==> is_alnum(#[trigger] input@[j]),
        decreases n - i,
    {
        let c = input.get_char(i);
        if !alnum_char(c) {
            assert(!is_alnum(input@[i as int]));
            return false;
        }
        i += 1;
    }
    true
}

/// Whether every character of `input` in the index range `[from, to)` is a
/// letter.
pub(crate) fn letters_in_range(input: &str, from: usize, to: usize) -> (b: bool)
    requires
        from <= to <= input@.len(),
    ensures
        b == all_letters(input@.subrange(from as int, to as int)),
{
    let ghost seg = input@.subrange(from as int, to as int);
    let mut i: usize = from;
    while i < to
        invariant
            from <= i <= to <= input@.len(),
            seg == input@.subrange(from as int, to as int),
            forall|j: int| 0 <= j < i - from ==> is_letter(#[trigger] seg[j]),
        decreases to - i,
    {
        let c = input.get_char(i);
        assert(seg[i - from] == input@[i as int]);
        if !letter_char(c) {
            assert(!is_letter(seg[i - from]));
            return false;
        }
        i += 1;
    }
    true
}

/// Whether `input` is a valid base under the permissive predicate.
pub fn permissive_check(input: &str) -> (b: bool)
    ensures
        b == permissive_valid(input@),
{
    let n = input.unicode_len();
    if n == 0 {
        return false;
    }
    all_alnum_str(input) && contains_both_letter_and_digit(input)
}

/// Whether `c` is a regional-prefix letter (`G` or `M`, either case).
pub(crate) fn region_letter_char(c: char) -> (b: bool)
    ensures
        b == is_region_letter(c),
{
    let u = upper_char(c);
    u == 'G' || u == 'M'
}

/// Whether `input` as a whole is a valid base under the regional grammar.
pub fn regional_check(input: &str) -> (b: bool)
    ensures
        b == regional_valid(input@),
{
    let n = input.unicode_len();
    if n < 4 || n > 6 {
        return false;
    }
    let c0 = input.get_char(0);
    let c1 = input.get_char(1);
    let region = if (n == 4 || n == 5) && region_letter_char(c0) {
        let d = c1 as u32;
        48 <= d && d <= 56 && letters_in_range(input, 2, n)
    } else {
        false
    };
    let intermediate = if (n == 5 || n == 6) && c0 == '2' {
        let c2 = input.get_char(2);
        upper_char(c1) == 'E' && (c2 == '0' || c2 == '1') && letters_in_range(input, 3, n)
    } else {
        false
    };
    assert(region == region_form(input@));
    assert(intermediate == intermediate_form(input@));
    region || intermediate
}

/// Whether `input` is a valid base under the predicate selected by `mode`.
pub fn mode_check(input: &str, mode: Mode) -> (b: bool)
    ensures
        b == mode_valid(input@, mode),
{
    match mode {
        Mode::Permissive => permissive_check(input),
        Mode::Regional => regional_check(input),
    }
}

} // verus!
