//! Parsing and validation of amateur-radio callsigns.
//!
//! The library recognises callsign tokens such as `G4EMM`, `G4EMM/P` or
//! `F/M0BOZ`, splitting them into an optional prefix, a base callsign and an
//! optional suffix. Two validation modes are offered: a permissive one that
//! accepts any alphanumeric mix of letters and digits, and a regional one
//! that enforces a stricter grammar. A scanning entry point finds the first
//! callsign of the regional grammar inside a free-form line of text.

use vstd::prelude::*;

pub mod chars;
pub mod grammar;
pub mod laws;
pub mod scan;
pub mod token;

pub use crate::grammar::contains_both_letter_and_digit;
pub use crate::scan::parse_line;
pub use crate::token::{callsign_parser, parse_token};

verus! {

/// Which validity predicate a parse applies to the base callsign.
#[derive(Debug, Clone, Copy, PartialEq, Eq, Structural)]
pub enum Mode {
    /// Any mix of letters and digits with at least one of each.
    Permissive,
    /// The regional grammar: `G`/`M`, digit `0`-`8`, 2-3 letters; or
    /// `2E`, digit `0`/`1`, 2-3 letters. Case-insensitive; the matched
    /// base is stored upper-cased.
    Regional,
}

/// Why a token was rejected.
#[derive(Debug, Clone, Copy, PartialEq, Eq, Structural)]
pub enum ParseError {
    /// A `/`-delimited token has an empty segment, more than one `/`, or an
    /// ambiguous split where both segments would qualify as the base.
    MalformedToken,
    /// The token (or its base segment) does not satisfy the selected
    /// validity predicate, or a prefix/suffix segment is not alphanumeric.
    InvalidCallsign,
}

/// A successfully parsed callsign: the base token plus an optional
/// `/`-separated prefix (before the base) or suffix (after the base).
#[derive(Debug, PartialEq, Eq)]
pub struct Callsign {
    /// The core callsign token; non-empty and valid under the mode in force.
    pub base: String,
    /// Leading `/`-separated segment (for example a guest-country indicator).
    pub prefix: Option<String>,
    /// Trailing `/`-separated segment (for example a portable indicator).
    pub suffix: Option<String>,
}

/// Mathematical image of a [`Callsign`]: the same three components as
/// sequences of characters.
pub struct CallsignModel {
    pub base: Seq<char>,
    pub prefix: Option<Seq<char>>,
    pub suffix: Option<Seq<char>>,
}

impl View for Callsign {
    type V = CallsignModel;

    open spec fn view(&self) -> CallsignModel {
        CallsignModel {
            base: self.base@,
            prefix: match self.prefix {
                Some(p) => Some(p@),
                None => None,
            },
            suffix: match self.suffix {
                Some(s) => Some(s@),
                None => None,
            },
        }
    }
}

} // verus!
