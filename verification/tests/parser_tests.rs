use callsign::{callsign_parser, parse_token, Mode, ParseError};

#[test]
fn simple_callsigns_are_correctly_parsed() {
    let simple_callsigns = vec!["g4emm", "2e0ihm", "m7dqd", "gm8ofx"];

    for input in simple_callsigns {
        let result = callsign_parser(input);
        assert!(result.is_ok(), "Failed to parse valid callsign: {}", input);
        let (remaining, callsign) = result.expect("Expected Ok, got Err");
        assert!(
            remaining.is_empty(),
            "Parser did not consume the entire input for: {}",
            input
        );
        assert_eq!(
            callsign.base, input,
            "Parsed callsign does not match input for: {}",
            input
        );
    }
}

#[test]
fn suffix_callsigns_are_correctly_parsed() {
    let test_cases = vec![
        ("g4emm/p", "g4emm", Some("p")),
        ("2e0ihm/m", "2e0ihm", Some("m")),
        ("m7dqd/a", "m7dqd", Some("a")),
        ("gm8ofx/qrp", "gm8ofx", Some("qrp")),
        ("lz1xn/mm", "lz1xn", Some("mm")),
        ("JG3TYS/3", "JG3TYS", Some("3")),
        ("VE7SDF/K7", "VE7SDF", Some("K7")),
    ];

    for (input, expected_call, expected_suffix) in test_cases {
        let result = callsign_parser(input);
        assert!(
            result.is_ok(),
            "Failed to parse valid callsign with suffix: {}",
            input
        );
        let (remaining, callsign) = result.expect("Expected Ok, got Err");

        assert!(
            remaining.is_empty(),
            "Parser did not consume the entire input for: {}",
            input
        );
        assert_eq!(
            callsign.base, expected_call,
            "Parsed callsign part does not match input for: {}",
            input
        );
        assert_eq!(
            callsign.suffix,
            expected_suffix.map(String::from),
            "Parsed suffix does not match input for: {}",
            input
        );
    }
}

#[test]
fn prefix_callsigns_are_correctly_parsed() {
    let test_cases = vec![("f/m0boz", "m0boz", Some("f"))];

    for (input, expected_call, expected_prefix) in test_cases {
        let result = parse_token(input, Mode::Permissive);
        assert!(
            result.is_ok(),
            "Failed to parse valid callsign with suffix: {}",
            input
        );
        let callsign = result.expect("Expected Ok, got Err");

        assert_eq!(
            callsign.base, expected_call,
            "Parsed callsign part does not match input for: {}",
            input
        );
        assert_eq!(
            callsign.prefix,
            expected_prefix.map(String::from),
            "Parsed suffix does not match input for: {}",
            input
        );
    }

    // Both segments of "oz8/hb9lag" qualify as a base on their own, so the
    // split is ambiguous and the token is rejected rather than guessed at.
    let ambiguous = parse_token("oz8/hb9lag", Mode::Permissive);
    assert_eq!(ambiguous.unwrap_err(), ParseError::MalformedToken);
}

#[test]
fn invalid_callsigns_are_correctly_identified() {
    let invalid_callsigns = vec!["notacall", "12345"];

    for input in invalid_callsigns {
        let result = callsign_parser(input);
        assert!(
            result.is_err(),
            "Incorrectly parsed invalid callsign as valid: {}",
            input
        );
    }
}

#[test]
fn parser_leaves_remaining_input() {
    let (remaining, callsign) = callsign_parser("g4emm today").expect("Expected Ok");
    assert_eq!(callsign.base, "g4emm");
    assert_eq!(callsign.suffix, None);
    assert_eq!(remaining, " today");

    // A `/` with no alphanumeric run after it is not taken as a suffix.
    let (remaining, callsign) = callsign_parser("g4emm/ next").expect("Expected Ok");
    assert_eq!(callsign.base, "g4emm");
    assert_eq!(callsign.suffix, None);
    assert_eq!(remaining, "/ next");

    let (remaining, callsign) = callsign_parser("m0boz/p qrt").expect("Expected Ok");
    assert_eq!(callsign.base, "m0boz");
    assert_eq!(callsign.suffix, Some(String::from("p")));
    assert_eq!(remaining, " qrt");
}
