//! Scan mode: finding the first substring of a free-form line that is a
//! valid base under the regional grammar.

use vstd::prelude::*;

use crate::chars::upper_seq;
use crate::grammar::{
    intermediate_form, is_digit_0_to_8, is_region_letter, letters_in_range, region_form,
    region_letter_char, regional_valid,
};
use crate::Callsign;
use crate::token::upper_string;
use vstd::string::StrSliceExecFns;

verus! {

/// The `l` characters of `s` that start at position `i` form a valid base
/// under the regional grammar.
pub open spec fn match_at(s: Seq<char>, i: int, l: int) -> bool {
    &&& 0 <= i
    &&& 0 <= l
    &&& i + l <= s.len()
    &&& regional_valid(s.subrange(i, i + l))
}

/// Some match of the regional grammar starts at position `i`.
pub open spec fn match_from(s: Seq<char>, i: int) -> bool {
    exists|l: int| match_at(s, i, l)
}

/// Some match of the regional grammar starts somewhere in `s`.
pub open spec fn has_regional_match(s: Seq<char>) -> bool {
    exists|i: int| match_from(s, i)
}

/// Position `i` starts a match and no earlier position does.
pub open spec fn leftmost_match(s: Seq<char>, i: int) -> bool {
    &&& match_from(s, i)
    &&& forall|j: int| 0 <= j < i ==> !match_from(s, j)
}

/// `l` is the length of the longest match that starts at position `i`.
pub open spec fn longest_match_at(s: Seq<char>, i: int, l: int) -> bool {
    &&& match_at(s, i, l)
    &&& forall|l2: int| l2 > l ==> !match_at(s, i, l2)
}

/// The length of the longest match of the regional grammar that starts at
/// position `i` of `s`, or `None` when no match starts there.
fn match_len_at(s: &str, i: usize) -> (r: Option<usize>)
    requires
        i < s@.len(),
    ensures
        r matches Some(l) ==> i + l <= s@.len() && longest_match_at(s@, i as int, l as int),
        r is None ==> !match_from(s@, i as int),
{
    let n = s.unicode_len();
    let c0 = s.get_char(i);
    if region_letter_char(c0) {
        let head = if n - i >= 2 {
            let c1 = s.get_char(i + 1);
            let d = c1 as u32;
            48 <= d && d <= 56
        } else {
            false
        };
        if head {
            if n - i >= 5 && letters_in_range(s, i + 2, i + 5) {
                proof {
                    assert(s@.subrange(i as int, i + 5).subrange(2, 5) =~= s@.subrange(
                        i + 2,
                        i + 5,
                    ));
                    assert(region_form(s@.subrange(i as int, i + 5)));
                    assert forall|l2: int| l2 > 5 implies !match_at(s@, i as int, l2) by {
                        lemma_no_match_shape(s@, i as int, l2);
                    }
                }
                return Some(5);
            }
            if n - i >= 4 && letters_in_range(s, i + 2, i + 4) {
                proof {
                    assert(s@.subrange(i as int, i + 4).subrange(2, 4) =~= s@.subrange(
                        i + 2,
                        i + 4,
                    ));
                    assert(region_form(s@.subrange(i as int, i + 4)));
                    assert forall|l2: int| l2 > 4 implies !match_at(s@, i as int, l2) by {
                        lemma_no_match_shape(s@, i as int, l2);
                        if l2 == 5 && match_at(s@, i as int, l2) {
                            assert(s@.subrange(i as int, i + 5).subrange(2, 5) =~= s@.subrange(
                                i + 2,
                                i + 5,
                            ));
                            assert(s@.subrange(i + 2, i + 5).subrange(0, 2) =~= s@.subrange(
                                i + 2,
                                i + 4,
                            ));
                        }
                    }
                }
                return Some(4);
            }
            proof {
                assert forall|l2: int| !match_at(s@, i as int, l2) by {
                    lemma_no_match_shape(s@, i as int, l2);
                    if (l2 == 4 || l2 == 5) && match_at(s@, i as int, l2) {
                        let sub = s@.subrange(i as int, i + l2);
                        assert(sub.subrange(2, l2) =~= s@.subrange(i + 2, i + l2));
                        if l2 == 5 {
                            assert(s@.subrange(i + 2, i + 5).subrange(0, 2) =~= s@.subrange(
                                i + 2,
                                i + 4,
                            ));
                        }
                    }
                }
            }
            return None;
        }
        proof {
            assert forall|l2: int| !match_at(s@, i as int, l2) by {
                lemma_no_match_shape(s@, i as int, l2);
            }
        }
        return None;
    }
    if c0 == '2' {
        let head = if n - i >= 3 {
            let c1 = s.get_char(i + 1);
            let c2 = s.get_char(i + 2);
            let u = crate::chars::upper_char(c1);
            u == 'E' && (c2 == '0' || c2 == '1')
        } else {
            false
        };
        if head {
            if n - i >= 6 && letters_in_range(s, i + 3, i + 6) {
                proof {
                    assert(s@.subrange(i as int, i + 6).subrange(3, 6) =~= s@.subrange(
                        i + 3,
                        i + 6,
                    ));
                    assert(intermediate_form(s@.subrange(i as int, i + 6)));
                    assert forall|l2: int| l2 > 6 implies !match_at(s@, i as int, l2) by {
                        lemma_no_match_shape(s@, i as int, l2);
                    }
                }
                return Some(6);
            }
            if n - i >= 5 && letters_in_range(s, i + 3, i + 5) {
                proof {
                    assert(s@.subrange(i as int, i + 5).subrange(3, 5) =~= s@.subrange(
                        i + 3,
                        i + 5,
                    ));
                    assert(intermediate_form(s@.subrange(i as int, i + 5)));
                    assert forall|l2: int| l2 > 5 implies !match_at(s@, i as int, l2) by {
                        lemma_no_match_shape(s@, i as int, l2);
                        if l2 == 6 && match_at(s@, i as int, l2) {
                            assert(s@.subrange(i as int, i + 6).subrange(3, 6) =~= s@.subrange(
                                i + 3,
                                i + 6,
                            ));
                            assert(s@.subrange(i + 3, i + 6).subrange(0, 2) =~= s@.subrange(
                                i + 3,
                                i + 5,
                            ));
                        }
                    }
                }
                return Some(5);
            }
            proof {
                assert forall|l2: int| !match_at(s@, i as int, l2) by {
                    lemma_no_match_shape(s@, i as int, l2);
                    if (l2 == 5 || l2 == 6) && match_at(s@, i as int, l2) {
                        let sub = s@.subrange(i as int, i + l2);
                        assert(sub.subrange(3, l2) =~= s@.subrange(i + 3, i + l2));
                        if l2 == 6 {
                            assert(s@.subrange(i + 3, i + 6).subrange(0, 2) =~= s@.subrange(
                                i + 3,
                                i + 5,
                            ));
                        }
                    }
                }
            }
            return None;
        }
        proof {
            assert forall|l2: int| !match_at(s@, i as int, l2) by {
                lemma_no_match_shape(s@, i as int, l2);
            }
        }
        return None;
    }
    proof {
        assert forall|l2: int| !match_at(s@, i as int, l2) by {
            lemma_no_match_shape(s@, i as int, l2);
        }
    }
    None
}

/// A match that starts at `i` has one of the two grammar shapes: its
/// length is between 4 and 6 and its head characters are constrained as
/// the two forms say.
proof fn lemma_no_match_shape(s: Seq<char>, i: int, l: int)
    requires
        0 <= i < s.len(),
    ensures
        match_at(s, i, l) ==> {
            let sub = s.subrange(i, i + l);
            &&& 4 <= l <= 6
            &&& sub[0] == s[i]
            &&& (region_form(sub) ==> (l == 4 || l == 5) && is_region_letter(s[i])
                && is_digit_0_to_8(s[i + 1]))
            &&& (intermediate_form(sub) ==> (l == 5 || l == 6) && s[i] == '2' && crate::chars::to_upper(
                s[i + 1],
            ) == 'E' && (s[i + 2] == '0' || s[i + 2] == '1'))
        },
{
    if match_at(s, i, l) {
        let sub = s.subrange(i, i + l);
        assert(regional_valid(sub));
        if region_form(sub) {
            assert(sub[0] == s[i]);
            assert(sub[1] == s[i + 1]);
        }
        if intermediate_form(sub) {
            assert(sub[0] == s[i]);
            assert(sub[1] == s[i + 1]);
            assert(sub[2] == s[i + 2]);
        }
    }
}

/// Scans `line` for the first substring that is a valid base under the
/// regional grammar. Returns the leftmost match, extended as far as the
/// grammar allows, upper-cased, with no prefix/suffix decomposition; or
/// `None` when no such substring exists anywhere in the line.
pub fn parse_line(line: &str) -> (r: Option<Callsign>)
    ensures
        r is Some <==> has_regional_match(line@),
        r matches Some(c) ==> exists|i: int, l: int|
            leftmost_match(line@, i) && #[trigger] longest_match_at(line@, i, l) && c@.base
                == upper_seq(line@.subrange(i, i + l)) && c@.prefix is None && c@.suffix is None,
{
    let n = line.unicode_len();
    let mut i: usize = 0;
    while i < n
        invariant
            i <= n,
            n == line@.len(),
            forall|j: int| 0 <= j < i ==> !match_from(line@, j),
        decreases n - i,
    {
        match match_len_at(line, i) {
            Some(l) => {
                let seg = line.substring_char(i, i + l);
                let base = upper_string(seg);
                proof {
                    assert(leftmost_match(line@, i as int));
                    assert(longest_match_at(line@, i as int, l as int));
                }
                return Some(Callsign { base, prefix: None, suffix: None });
            },
            None => {
                i += 1;
            },
        }
    }
    proof {
        assert forall|j: int| !match_from(line@, j) by {
            if 0 <= j < n as int {
            } else {
                assert forall|l: int| !match_at(line@, j, l) by {
                    if match_at(line@, j, l) {
                        let sub = line@.subrange(j, j + l);
                        assert(regional_valid(sub));
                        assert(sub.len() >= 4);
                    }
                }
            }
        }
    }
    None
}

} // verus!
