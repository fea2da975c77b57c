//! General properties of the parser, stated and proved over the
//! mathematical models: rejection of letter-only and digit-only tokens,
//! idempotence of re-parsing a base, and case insensitivity.

use vstd::prelude::*;

use crate::chars::{
    case_eq, case_eq_char, is_digit, is_letter, lemma_case_eq_char_classes,
    lemma_to_upper_classes, upper_seq,
};
use crate::grammar::{
    all_alnum, all_letters, has_digit, has_letter, intermediate_form, lemma_regional_valid_upper,
    mode_valid, region_form,
};
use crate::token::{has_single_slash, single_slash_at, slash_free, slash_index, token_model};
use crate::{CallsignModel, Mode, ParseError};

verus! {

/// A token of digits alone is never a callsign: under the permissive mode
/// it is rejected as invalid, since it contains no letter.
pub proof fn lemma_digits_only_rejected(s: Seq<char>)
    requires
        forall|i: int| 0 <= i < s.len() ==> is_digit(#[trigger] s[i]),
    ensures
        token_model(s, Mode::Permissive) == Err::<CallsignModel, ParseError>(
            ParseError::InvalidCallsign,
        ),
{
    assert(slash_free(s));
    assert(!has_letter(s));
}

/// A token of letters alone is never a callsign: under the permissive mode
/// it is rejected as invalid, since it contains no digit.
pub proof fn lemma_letters_only_rejected(s: Seq<char>)
    requires
        forall|i: int| 0 <= i < s.len() ==> is_letter(#[trigger] s[i]),
    ensures
        token_model(s, Mode::Permissive) == Err::<CallsignModel, ParseError>(
            ParseError::InvalidCallsign,
        ),
{
    assert(slash_free(s));
    assert(!has_digit(s));
}

/// Re-parsing the base of a successful parse that had no prefix and no
/// suffix succeeds and yields the same callsign again.
pub proof fn lemma_reparse_base(s: Seq<char>, mode: Mode)
    requires
        token_model(s, mode) matches Ok(c) && c.prefix is None && c.suffix is None,
    ensures
        token_model(token_model(s, mode)->Ok_0.base, mode) == token_model(s, mode),
{
    let c = token_model(s, mode)->Ok_0;
    assert(slash_free(s) && mode_valid(s, mode));
    match mode {
        Mode::Permissive => {
            assert(c.base == s);
        },
        Mode::Regional => {
            assert(c.base == upper_seq(s));
            assert(slash_free(upper_seq(s))) by {
                assert forall|i: int| 0 <= i < upper_seq(s).len() implies #[trigger] upper_seq(
                    s,
                )[i] != '/' by {
                    lemma_to_upper_classes(s[i]);
                    assert(s[i] != '/');
                }
            }
            lemma_regional_valid_upper(s);
            assert(token_model(c.base, mode) == Ok::<CallsignModel, ParseError>(
                CallsignModel {
                    base: upper_seq(upper_seq(s)),
                    prefix: None,
                    suffix: None,
                },
            ));
        },
    }
}

/// The base of every successful parse satisfies the validity predicate of
/// the mode it was parsed under, as stored: upper-casing under the
/// regional mode does not take the base out of the grammar. In
/// particular, a stored base is never empty.
pub proof fn lemma_base_valid(s: Seq<char>, mode: Mode)
    requires
        token_model(s, mode) matches Ok(c),
    ensures
        mode_valid(token_model(s, mode)->Ok_0.base, mode),
        token_model(s, mode)->Ok_0.base.len() > 0,
{
    let c = token_model(s, mode)->Ok_0;
    if slash_free(s) {
        lemma_normalize_keeps_valid(s, mode);
    } else {
        let k = slash_index(s);
        let a = s.subrange(0, k);
        let b = s.subrange(k + 1, s.len() as int);
        if mode_valid(a, mode) && !mode_valid(b, mode) {
            lemma_normalize_keeps_valid(a, mode);
        } else {
            lemma_normalize_keeps_valid(b, mode);
        }
    }
}

/// A valid base segment stays valid once stored: the permissive mode
/// stores it unchanged, the regional mode upper-cases it, and the
/// regional grammar is closed under upper-casing.
proof fn lemma_normalize_keeps_valid(s: Seq<char>, mode: Mode)
    requires
        mode_valid(s, mode),
    ensures
        mode_valid(crate::token::normalize_base(s, mode), mode),
        crate::token::normalize_base(s, mode).len() > 0,
{
    match mode {
        Mode::Permissive => {},
        Mode::Regional => {
            lemma_regional_valid_upper(s);
        },
    }
}

/// The base that scanning a line yields is itself regionally valid: a
/// matched substring stays inside the regional grammar when it is stored
/// upper-cased.
pub proof fn lemma_scan_base_valid(s: Seq<char>, i: int, l: int)
    requires
        crate::scan::match_at(s, i, l),
    ensures
        crate::grammar::regional_valid(upper_seq(s.subrange(i, i + l))),
{
    lemma_regional_valid_upper(s.subrange(i, i + l));
}

/// The only `/` of a sequence sits at one position alone.
proof fn lemma_single_slash_unique(s: Seq<char>, k1: int, k2: int)
    requires
        single_slash_at(s, k1),
        single_slash_at(s, k2),
    ensures
        k1 == k2,
{
    if k1 != k2 {
        assert(s[k1] != '/');
    }
}

/// Sequences that are equal up to case have the same letters, digits and
/// alphanumeric positions, and `/` at the same places.
proof fn lemma_case_eq_pointwise(s: Seq<char>, t: Seq<char>)
    requires
        case_eq(s, t),
    ensures
        forall|i: int|
            0 <= i < s.len() ==> (is_letter(#[trigger] s[i]) == is_letter(t[i]) && is_digit(s[i])
                == is_digit(t[i]) && crate::chars::is_alnum(s[i]) == crate::chars::is_alnum(t[i])
                && (s[i] == '/' <==> t[i] == '/')),
{
    assert forall|i: int| 0 <= i < s.len() implies (is_letter(#[trigger] s[i]) == is_letter(t[i])
        && is_digit(s[i]) == is_digit(t[i]) && crate::chars::is_alnum(s[i])
        == crate::chars::is_alnum(t[i]) && (s[i] == '/' <==> t[i] == '/')) by {
        lemma_case_eq_char_classes(s[i], t[i]);
    }
}

/// Sequences that are equal up to case satisfy the same validity
/// predicate, whichever mode selects it, and fold to the same upper-case
/// sequence.
proof fn lemma_case_eq_valid(s: Seq<char>, t: Seq<char>, mode: Mode)
    requires
        case_eq(s, t),
    ensures
        mode_valid(s, mode) == mode_valid(t, mode),
        all_alnum(s) == all_alnum(t),
        upper_seq(s) == upper_seq(t),
{
    lemma_case_eq_pointwise(s, t);
    assert(upper_seq(s) =~= upper_seq(t));
    if has_letter(s) {
        let i = choose|i: int| 0 <= i < s.len() && is_letter(s[i]);
        assert(is_letter(t[i]));
    }
    if has_letter(t) {
        let i = choose|i: int| 0 <= i < t.len() && is_letter(t[i]);
        assert(is_letter(s[i]));
    }
    if has_digit(s) {
        let i = choose|i: int| 0 <= i < s.len() && is_digit(s[i]);
        assert(is_digit(t[i]));
    }
    if has_digit(t) {
        let i = choose|i: int| 0 <= i < t.len() && is_digit(t[i]);
        assert(is_digit(s[i]));
    }
    if s.len() >= 3 {
        assert(case_eq_char(s[0], t[0]) && case_eq_char(s[1], t[1]) && case_eq_char(s[2], t[2]));
        lemma_case_eq_char_classes(s[0], t[0]);
        lemma_case_eq_char_classes(s[1], t[1]);
        lemma_case_eq_char_classes(s[2], t[2]);
    }
    if s.len() == 4 || s.len() == 5 || s.len() == 6 {
        assert(case_eq(s.subrange(2, s.len() as int), t.subrange(2, t.len() as int)));
        assert(case_eq(s.subrange(3, s.len() as int), t.subrange(3, t.len() as int)));
        lemma_case_eq_all_letters(s.subrange(2, s.len() as int), t.subrange(2, t.len() as int));
        lemma_case_eq_all_letters(s.subrange(3, s.len() as int), t.subrange(3, t.len() as int));
        assert(crate::grammar::is_digit_0_to_8(s[1]) == crate::grammar::is_digit_0_to_8(t[1]))
            by {
            lemma_case_eq_char_classes(s[1], t[1]);
        }
        assert(region_form(s) == region_form(t));
        assert(intermediate_form(s) == intermediate_form(t));
    }
}

/// Sequences equal up to case are all-letters together.
proof fn lemma_case_eq_all_letters(s: Seq<char>, t: Seq<char>)
    requires
        case_eq(s, t),
    ensures
        all_letters(s) == all_letters(t),
{
    lemma_case_eq_pointwise(s, t);
    if all_letters(s) {
        assert forall|i: int| 0 <= i < t.len() implies is_letter(#[trigger] t[i]) by {
            assert(is_letter(s[i]));
        }
    }
    if all_letters(t) {
        assert forall|i: int| 0 <= i < s.len() implies is_letter(#[trigger] s[i]) by {
            assert(is_letter(t[i]));
        }
    }
}

/// Parsing is case-insensitive: tokens that differ only in letter case
/// succeed and fail together, with the same error, and on success the
/// components agree up to case; under the regional mode the stored bases
/// are exactly equal, both being upper-cased.
pub proof fn lemma_case_insensitive(s: Seq<char>, t: Seq<char>, mode: Mode)
    requires
        case_eq(s, t),
    ensures
        token_model(s, mode) is Ok <==> token_model(t, mode) is Ok,
        token_model(s, mode) matches Err(e) ==> token_model(t, mode) matches Err(e2) && e == e2,
        token_model(s, mode) matches Ok(c) ==> token_model(t, mode) matches Ok(d) && case_eq(
            c.base,
            d.base,
        ) && (c.prefix is Some <==> d.prefix is Some) && (c.suffix is Some <==> d.suffix is Some)
            && (c.prefix matches Some(p) ==> d.prefix matches Some(q) && case_eq(p, q)) && (
        c.suffix matches Some(p) ==> d.suffix matches Some(q) && case_eq(p, q)) && (mode
            == Mode::Regional ==> c.base == d.base),
{
    lemma_case_eq_pointwise(s, t);
    assert(slash_free(s) == slash_free(t));
    if slash_free(s) {
        lemma_case_eq_valid(s, t, mode);
        if mode_valid(s, mode) {
            lemma_case_eq_normalize(s, t, mode);
        }
    } else {
        assert(has_single_slash(s) == has_single_slash(t)) by {
            if has_single_slash(s) {
                let k = choose|k: int| single_slash_at(s, k);
                assert(single_slash_at(t, k));
            }
            if has_single_slash(t) {
                let k = choose|k: int| single_slash_at(t, k);
                assert(single_slash_at(s, k));
            }
        }
        if has_single_slash(s) {
            let ks = slash_index(s);
            let kt = slash_index(t);
            assert(single_slash_at(s, ks));
            assert(single_slash_at(t, kt));
            assert(single_slash_at(t, ks));
            lemma_single_slash_unique(t, ks, kt);
            let a_s = s.subrange(0, ks);
            let b_s = s.subrange(ks + 1, s.len() as int);
            let a_t = t.subrange(0, ks);
            let b_t = t.subrange(ks + 1, t.len() as int);
            assert(case_eq(a_s, a_t));
            assert(case_eq(b_s, b_t));
            lemma_case_eq_valid(a_s, a_t, mode);
            lemma_case_eq_valid(b_s, b_t, mode);
            lemma_case_eq_normalize(a_s, a_t, mode);
            lemma_case_eq_normalize(b_s, b_t, mode);
        }
    }
}

/// Normalised bases of case-equal segments are case-equal, and exactly
/// equal under the regional mode.
proof fn lemma_case_eq_normalize(s: Seq<char>, t: Seq<char>, mode: Mode)
    requires
        case_eq(s, t),
    ensures
        case_eq(
            crate::token::normalize_base(s, mode),
            crate::token::normalize_base(t, mode),
        ),
        mode == Mode::Regional ==> crate::token::normalize_base(s, mode)
            == crate::token::normalize_base(t, mode),
{
    lemma_case_eq_pointwise(s, t);
    match mode {
        Mode::Permissive => {
        },
        Mode::Regional => {
            assert(upper_seq(s) =~= upper_seq(t));
            assert forall|i: int| 0 <= i < s.len() implies case_eq_char(
                #[trigger] upper_seq(s)[i],
                upper_seq(t)[i],
            ) by {}
        },
    }
}

} // verus!
