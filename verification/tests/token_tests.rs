use callsign::grammar::{permissive_check, regional_check};
use callsign::{contains_both_letter_and_digit, parse_token, Mode, ParseError};

#[test]
fn permissive_digits_only_rejected() {
    for input in ["12345", "0", "999999999"] {
        let result = parse_token(input, Mode::Permissive);
        assert_eq!(result.unwrap_err(), ParseError::InvalidCallsign, "{}", input);
    }
}

#[test]
fn permissive_letters_only_rejected() {
    for input in ["notacall", "a", "QRZ"] {
        let result = parse_token(input, Mode::Permissive);
        assert_eq!(result.unwrap_err(), ParseError::InvalidCallsign, "{}", input);
    }
}

#[test]
fn permissive_plain_token() {
    let callsign = parse_token("g4emm", Mode::Permissive).expect("Expected Ok");
    assert_eq!(callsign.base, "g4emm");
    assert_eq!(callsign.prefix, None);
    assert_eq!(callsign.suffix, None);
}

#[test]
fn permissive_suffix_token() {
    let callsign = parse_token("g4emm/p", Mode::Permissive).expect("Expected Ok");
    assert_eq!(callsign.base, "g4emm");
    assert_eq!(callsign.prefix, None);
    assert_eq!(callsign.suffix, Some(String::from("p")));
}

#[test]
fn permissive_prefix_token() {
    let callsign = parse_token("f/m0boz", Mode::Permissive).expect("Expected Ok");
    assert_eq!(callsign.base, "m0boz");
    assert_eq!(callsign.prefix, Some(String::from("f")));
    assert_eq!(callsign.suffix, None);
}

#[test]
fn empty_token_rejected() {
    let result = parse_token("", Mode::Permissive);
    assert_eq!(result.unwrap_err(), ParseError::InvalidCallsign);
    let result = parse_token("", Mode::Regional);
    assert_eq!(result.unwrap_err(), ParseError::InvalidCallsign);
}

#[test]
fn malformed_tokens() {
    // Empty segment on either side of the slash.
    assert_eq!(
        parse_token("g4emm/", Mode::Permissive).unwrap_err(),
        ParseError::MalformedToken
    );
    assert_eq!(
        parse_token("/p", Mode::Permissive).unwrap_err(),
        ParseError::MalformedToken
    );
    // More than one slash.
    assert_eq!(
        parse_token("f/m0boz/p", Mode::Permissive).unwrap_err(),
        ParseError::MalformedToken
    );
    // Both segments would qualify as the base: ambiguous.
    assert_eq!(
        parse_token("g4emm/m0boz", Mode::Permissive).unwrap_err(),
        ParseError::MalformedToken
    );
    assert_eq!(
        parse_token("g4emm/2e0ihm", Mode::Regional).unwrap_err(),
        ParseError::MalformedToken
    );
}

#[test]
fn invalid_side_segments_rejected() {
    // The suffix segment must be alphanumeric.
    assert_eq!(
        parse_token("g4emm/p!", Mode::Permissive).unwrap_err(),
        ParseError::InvalidCallsign
    );
    // Neither segment qualifies as a base.
    assert_eq!(
        parse_token("abc/def", Mode::Permissive).unwrap_err(),
        ParseError::InvalidCallsign
    );
}

#[test]
fn regional_accepts_grammar_forms() {
    let callsign = parse_token("m7dqd", Mode::Regional).expect("Expected Ok");
    assert_eq!(callsign.base, "M7DQD");

    let callsign = parse_token("2e0ihm", Mode::Regional).expect("Expected Ok");
    assert_eq!(callsign.base, "2E0IHM");

    let callsign = parse_token("g0ab", Mode::Regional).expect("Expected Ok");
    assert_eq!(callsign.base, "G0AB");

    // The suffix is stored as written; only the base is upper-cased.
    let callsign = parse_token("g4emm/p", Mode::Regional).expect("Expected Ok");
    assert_eq!(callsign.base, "G4EMM");
    assert_eq!(callsign.suffix, Some(String::from("p")));
}

#[test]
fn regional_rejects_digit_nine() {
    let result = parse_token("g9abc", Mode::Regional);
    assert_eq!(result.unwrap_err(), ParseError::InvalidCallsign);
}

#[test]
fn regional_rejects_other_shapes() {
    for input in ["gm8ofx", "lz1xn", "g4e", "g4emmm", "2e2ab", "x4emm"] {
        let result = parse_token(input, Mode::Regional);
        assert_eq!(result.unwrap_err(), ParseError::InvalidCallsign, "{}", input);
    }
}

#[test]
fn reparse_base_yields_same() {
    for (input, mode) in [
        ("g4emm", Mode::Permissive),
        ("G4EMM", Mode::Regional),
        ("g4emm", Mode::Regional),
        ("2e0ihm", Mode::Regional),
        ("lz1xn", Mode::Permissive),
    ] {
        let first = parse_token(input, mode).expect("Expected Ok");
        let second = parse_token(&first.base, mode).expect("Expected Ok on reparse");
        assert_eq!(first, second, "{}", input);
    }
}

#[test]
fn case_insensitive_parsing() {
    let lower = parse_token("g4emm", Mode::Permissive).expect("Expected Ok");
    let upper = parse_token("G4EMM", Mode::Permissive).expect("Expected Ok");
    assert_eq!(lower.base.to_ascii_uppercase(), upper.base);
    assert_eq!(lower.prefix, upper.prefix);
    assert_eq!(lower.suffix, upper.suffix);

    // Under the regional mode the stored bases agree exactly.
    let lower = parse_token("g4emm", Mode::Regional).expect("Expected Ok");
    let upper = parse_token("G4EMM", Mode::Regional).expect("Expected Ok");
    assert_eq!(lower, upper);
    assert_eq!(lower.base, "G4EMM");
}

#[test]
fn exact_grammar_checks() {
    assert!(regional_check("g4emm"));
    assert!(regional_check("G4EMM"));
    assert!(regional_check("m0ab"));
    assert!(regional_check("2e1abc"));
    assert!(!regional_check("g9abc"));
    assert!(!regional_check("g4e"));
    assert!(!regional_check("2e2abc"));
    assert!(!regional_check("g4emmm"));

    assert!(permissive_check("lz1xn"));
    assert!(!permissive_check("12345"));
    assert!(!permissive_check("notacall"));
    assert!(!permissive_check(""));
}

#[test]
fn non_ascii_characters_are_rejected() {
    // Only ASCII letters and digits belong to the callsign alphabet.
    let result = parse_token("gé4emm", Mode::Permissive);
    assert_eq!(result.unwrap_err(), ParseError::InvalidCallsign);
}

#[test]
fn letter_and_digit_detection() {
    assert!(contains_both_letter_and_digit("g4emm"));
    assert!(contains_both_letter_and_digit("4g"));
    assert!(!contains_both_letter_and_digit("gaaa"));
    assert!(!contains_both_letter_and_digit("123"));
    assert!(!contains_both_letter_and_digit(""));
    assert!(!contains_both_letter_and_digit("--"));
}
