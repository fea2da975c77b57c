//! Exact-mode parsing of a single callsign token: decomposition around `/`
//! into prefix, base and suffix, validation of the base under the selected
//! mode, and the streaming front-of-input parser.

use vstd::prelude::*;

use crate::chars::{alnum_char, is_alnum, to_upper, upper_char, upper_seq};
use crate::grammar::{
    all_alnum, all_alnum_str, contains_both_letter_and_digit, has_digit, has_letter, mode_check,
    mode_valid,
};
use crate::{Callsign, CallsignModel, Mode, ParseError};
use vstd::string::{StrSliceExecFns, StringExecFns};

verus! {

/// No character of `s` is a `/`.
pub open spec fn slash_free(s: Seq<char>) -> bool {
    forall|i: int| 0 <= i < s.len() ==> #[trigger] s[i] != '/'
}

/// `k` is the position of the only `/` in `s`.
pub open spec fn single_slash_at(s: Seq<char>, k: int) -> bool {
    &&& 0 <= k < s.len()
    &&& s[k] == '/'
    &&& forall|i: int| 0 <= i < s.len() && i != k ==> #[trigger] s[i] != '/'
}

/// `s` contains exactly one `/`.
pub open spec fn has_single_slash(s: Seq<char>) -> bool {
    exists|k: int| single_slash_at(s, k)
}

/// The position of the only `/` in `s` (meaningful when
/// `has_single_slash(s)` holds; the position is then unique).
pub open spec fn slash_index(s: Seq<char>) -> int {
    choose|k: int| single_slash_at(s, k)
}

/// The stored form of a base segment: upper-cased under the regional mode,
/// unchanged under the permissive mode.
pub open spec fn normalize_base(s: Seq<char>, mode: Mode) -> Seq<char> {
    match mode {
        Mode::Permissive => s,
        Mode::Regional => upper_seq(s),
    }
}

/// What parsing the whole token `s` under `mode` yields.
///
/// Without a `/` the token itself must be a valid base. With exactly one
/// `/`, the segment that satisfies the mode's validity predicate is the
/// base and the other segment becomes the suffix (base first) or the
/// prefix (base second); the other segment must be non-empty and
/// alphanumeric. The split is malformed when a segment is empty, when both
/// segments would qualify as the base (ambiguous), or when there is more
/// than one `/`.
pub open spec fn token_model(s: Seq<char>, mode: Mode) -> Result<CallsignModel, ParseError> {
    if slash_free(s) {
        if mode_valid(s, mode) {
            Ok(CallsignModel { base: normalize_base(s, mode), prefix: None, suffix: None })
        } else {
            Err(ParseError::InvalidCallsign)
        }
    } else if has_single_slash(s) {
        let k = slash_index(s);
        let a = s.subrange(0, k);
        let b = s.subrange(k + 1, s.len() as int);
        if a.len() == 0 || b.len() == 0 {
            Err(ParseError::MalformedToken)
        } else if mode_valid(a, mode) && mode_valid(b, mode) {
            Err(ParseError::MalformedToken)
        } else if mode_valid(a, mode) {
            if all_alnum(b) {
                Ok(
                    CallsignModel {
                        base: normalize_base(a, mode),
                        prefix: None,
                        suffix: Some(b),
                    },
                )
            } else {
                Err(ParseError::InvalidCallsign)
            }
        } else if mode_valid(b, mode) {
            if all_alnum(a) {
                Ok(
                    CallsignModel {
                        base: normalize_base(b, mode),
                        prefix: Some(a),
                        suffix: None,
                    },
                )
            } else {
                Err(ParseError::InvalidCallsign)
            }
        } else {
            Err(ParseError::InvalidCallsign)
        }
    } else {
        Err(ParseError::MalformedToken)
    }
}

/// Relies on `String::push`: appends the given character to the end of
/// the string.
#[verifier::external_body]
fn push_char(s: &mut String, c: char)
    ensures
        final(s)@ == old(s)@.push(c),
{
    s.push(c);
}

/// A copy of `s` with every character folded to upper case.
pub fn upper_string(s: &str) -> (r: String)
    ensures
        r@ == upper_seq(s@),
{
    let n = s.unicode_len();
    let mut out = String::new();
    let mut i: usize = 0;
    while i < n
        invariant
            i <= n,
            n == s@.len(),
            out@.len() == i,
            forall|j: int| 0 <= j < i ==> #[trigger] out@[j] == to_upper(s@[j]),
        decreases n - i,
    {
        let c = s.get_char(i);
        push_char(&mut out, upper_char(c));
        i += 1;
    }
    assert(out@ =~= upper_seq(s@));
    out
}

/// The stored form of the base segment `s` under `mode`, as an owned
/// string.
fn normalize_exec(s: &str, mode: Mode) -> (r: String)
    ensures
        r@ == normalize_base(s@, mode),
{
    match mode {
        Mode::Permissive => String::from_str(s),
        Mode::Regional => upper_string(s),
    }
}

/// Positions of the `/` characters found in a token: none, exactly one,
/// or at least two.
enum SlashShape {
    NoSlash,
    One(usize),
    Several,
}

/// Classifies `s` by its `/` characters.
fn find_slashes(s: &str) -> (r: SlashShape)
    ensures
        r is NoSlash <==> slash_free(s@),
        r matches SlashShape::One(k) ==> single_slash_at(s@, k as int),
        r is Several ==> !slash_free(s@) && !has_single_slash(s@),
{
    let n = s.unicode_len();
    let mut i: usize = 0;
    let mut first: Option<usize> = None;
    while i < n
        invariant
            i <= n,
            n == s@.len(),
            first matches Some(k) ==> 0 <= k < i && s@[k as int] == '/',
            forall|j: int|
                0 <= j < i && (first matches Some(k) ==> j != k) ==> #[trigger] s@[j] != '/',
        decreases n - i,
    {
        let c = s.get_char(i);
        if c == '/' {
            match first {
                None => {
                    first = Some(i);
                },
                Some(k) => {
                    assert(s@[k as int] == '/' && s@[i as int] == '/' && k != i);
                    assert forall|k2: int| !single_slash_at(s@, k2) by {
                        if single_slash_at(s@, k2) {
                            if k2 == k as int {
                                assert(s@[i as int] != '/');
                            } else {
                                assert(s@[k as int] != '/');
                            }
                        }
                    }
                    return SlashShape::Several;
                },
            }
        }
        i += 1;
    }
    match first {
        None => SlashShape::NoSlash,
        Some(k) => SlashShape::One(k),
    }
}

/// Parses the whole of `token` as one callsign, under the validity
/// predicate selected by `mode`; the result is exactly what
/// [`token_model`] states, with nothing of the input ignored.
pub fn parse_token(token: &str, mode: Mode) -> (r: Result<Callsign, ParseError>)
    ensures
        r is Ok <==> token_model(token@, mode) is Ok,
        r matches Ok(c) ==> token_model(token@, mode) matches Ok(m) && c@.base == m.base
            && c@.prefix == m.prefix && c@.suffix == m.suffix,
        r matches Err(e) ==> token_model(token@, mode) matches Err(e2) && e == e2,
{
    let n = token.unicode_len();
    match find_slashes(token) {
        SlashShape::NoSlash => {
            if mode_check(token, mode) {
                Ok(
                    Callsign {
                        base: normalize_exec(token, mode),
                        prefix: None,
                        suffix: None,
                    },
                )
            } else {
                Err(ParseError::InvalidCallsign)
            }
        },
        SlashShape::One(k) => {
            proof {
                assert(has_single_slash(token@));
                let k2 = slash_index(token@);
                assert(single_slash_at(token@, k2));
                if k2 != k as int {
                    assert(token@[k as int] != '/');
                }
                assert(slash_index(token@) == k as int);
            }
            let a = token.substring_char(0, k);
            let b = token.substring_char(k + 1, n);
            if k == 0 || k + 1 == n {
                return Err(ParseError::MalformedToken);
            }
            let pa = mode_check(a, mode);
            let pb = mode_check(b, mode);
            if pa && pb {
                Err(ParseError::MalformedToken)
            } else if pa {
                if all_alnum_str(b) {
                    Ok(
                        Callsign {
                            base: normalize_exec(a, mode),
                            prefix: None,
                            suffix: Some(String::from_str(b)),
                        },
                    )
                } else {
                    Err(ParseError::InvalidCallsign)
                }
            } else if pb {
                if all_alnum_str(a) {
                    Ok(
                        Callsign {
                            base: normalize_exec(b, mode),
                            prefix: Some(String::from_str(a)),
                            suffix: None,
                        },
                    )
                } else {
                    Err(ParseError::InvalidCallsign)
                }
            } else {
                Err(ParseError::InvalidCallsign)
            }
        },
        SlashShape::Several => Err(ParseError::MalformedToken),
    }
}

/// `m` is where the run of letters and digits that starts at `from` ends:
/// everything in `[from, m)` is alphanumeric and position `m` (if any)
/// is not.
pub open spec fn run_end_at(s: Seq<char>, from: int, m: int) -> bool {
    &&& from <= m <= s.len()
    &&& forall|j: int| from <= j < m ==> is_alnum(#[trigger] s[j])
    &&& m == s.len() || !is_alnum(s[m])
}

/// The end of the alphanumeric run that starts at `from` (unique, and it
/// exists whenever `0 <= from <= s.len()`).
pub open spec fn run_end(s: Seq<char>, from: int) -> int {
    choose|m: int| run_end_at(s, from, m)
}

/// At most one position can end the run that starts at `from`.
pub proof fn lemma_run_end_unique(s: Seq<char>, from: int, m1: int, m2: int)
    requires
        run_end_at(s, from, m1),
        run_end_at(s, from, m2),
    ensures
        m1 == m2,
{
    if m1 < m2 {
        assert(is_alnum(s[m1]));
    }
    if m2 < m1 {
        assert(is_alnum(s[m2]));
    }
}

/// Finds where the run of letters and digits that starts at `from` ends.
fn alnum_run_end(s: &str, from: usize) -> (m: usize)
    requires
        from <= s@.len(),
    ensures
        run_end_at(s@, from as int, m as int),
        m as int == run_end(s@, from as int),
{
    let n = s.unicode_len();
    let mut i: usize = from;
    while i < n
        invariant
            from <= i <= n,
            n == s@.len(),
            forall|j: int| from <= j < i ==> is_alnum(#[trigger] s@[j]),
        decreases n - i,
    {
        let c = s.get_char(i);
        if !alnum_char(c) {
            proof {
                lemma_run_end_unique(s@, from as int, i as int, run_end(s@, from as int));
            }
            return i;
        }
        i += 1;
    }
    proof {
        lemma_run_end_unique(s@, from as int, n as int, run_end(s@, from as int));
    }
    n
}

/// What parsing a callsign off the front of `s` yields: the leading run
/// of letters and digits is the base and must contain a letter and a
/// digit; a `/` directly after it introduces a suffix when a non-empty
/// alphanumeric run follows. Whatever comes after is left as the
/// remaining input.
pub open spec fn parser_model(s: Seq<char>) -> Result<(Seq<char>, CallsignModel), ParseError> {
    let m = run_end(s, 0);
    let run = s.subrange(0, m);
    if m == 0 || !(has_letter(run) && has_digit(run)) {
        Err(ParseError::InvalidCallsign)
    } else if m < s.len() && s[m] == '/' && run_end(s, m + 1) > m + 1 {
        let m2 = run_end(s, m + 1);
        Ok(
            (
                s.subrange(m2, s.len() as int),
                CallsignModel { base: run, prefix: None, suffix: Some(s.subrange(m + 1, m2)) },
            ),
        )
    } else {
        Ok(
            (
                s.subrange(m, s.len() as int),
                CallsignModel { base: run, prefix: None, suffix: None },
            ),
        )
    }
}

/// Parses a callsign off the front of `input` and returns it together
/// with the remaining, unconsumed input; the result is exactly what
/// [`parser_model`] states. The base is the leading alphanumeric run,
/// required to contain both a letter and a digit, and a directly
/// following `/`-separated alphanumeric run becomes the suffix.
pub fn callsign_parser<'a>(input: &'a str) -> (r: Result<(&'a str, Callsign), ParseError>)
    ensures
        r is Ok <==> parser_model(input@) is Ok,
        r matches Ok(p) ==> parser_model(input@) matches Ok(q) && p.0@ == q.0 && p.1@.base
            == q.1.base && p.1@.prefix == q.1.prefix && p.1@.suffix == q.1.suffix,
        r matches Err(e) ==> parser_model(input@) matches Err(e2) && e == e2,
{
    let n = input.unicode_len();
    let m = alnum_run_end(input, 0);
    if m == 0 {
        return Err(ParseError::InvalidCallsign);
    }
    let base_str = input.substring_char(0, m);
    if !contains_both_letter_and_digit(base_str) {
        return Err(ParseError::InvalidCallsign);
    }
    if m < n && input.get_char(m) == '/' {
        let m2 = alnum_run_end(input, m + 1);
        if m2 > m + 1 {
            let suffix = input.substring_char(m + 1, m2);
            let rest = input.substring_char(m2, n);
            return Ok(
                (
                    rest,
                    Callsign {
                        base: String::from_str(base_str),
                        prefix: None,
                        suffix: Some(String::from_str(suffix)),
                    },
                ),
            );
        }
    }
    let rest = input.substring_char(m, n);
    Ok(
        (
            rest,
            Callsign { base: String::from_str(base_str), prefix: None, suffix: None },
        ),
    )
}

} // verus!
