use callsign::parse_line;

#[test]
fn scan_line_without_callsign() {
    assert_eq!(parse_line("blank"), None);
    assert_eq!(parse_line(""), None);
    assert_eq!(parse_line("only words here"), None);
    // Digit 9 is outside the regional grammar.
    assert_eq!(parse_line("g9abc"), None);
}

#[test]
fn scan_line_with_callsign() {
    let callsign = parse_line("g4emm").expect("Expected a match");
    assert_eq!(callsign.base, "G4EMM");
    assert_eq!(callsign.prefix, None);
    assert_eq!(callsign.suffix, None);
}

#[test]
fn scan_finds_callsign_inside_text() {
    let callsign = parse_line("worked g4emm today").expect("Expected a match");
    assert_eq!(callsign.base, "G4EMM");

    let callsign = parse_line("xx2e0ihm").expect("Expected a match");
    assert_eq!(callsign.base, "2E0IHM");
}

#[test]
fn scan_returns_leftmost_match() {
    let callsign = parse_line("m0abc and g4emm").expect("Expected a match");
    assert_eq!(callsign.base, "M0ABC");
}

#[test]
fn scan_extends_match_as_far_as_possible() {
    // Three trailing letters are preferred over two.
    let callsign = parse_line("g4emm").expect("Expected a match");
    assert_eq!(callsign.base, "G4EMM");
    // A fourth trailing letter is outside the grammar and stays out.
    let callsign = parse_line("g4emmm").expect("Expected a match");
    assert_eq!(callsign.base, "G4EMM");
}

#[test]
fn scan_does_not_split_around_slash() {
    let callsign = parse_line("m0xyz/p").expect("Expected a match");
    assert_eq!(callsign.base, "M0XYZ");
    assert_eq!(callsign.prefix, None);
    assert_eq!(callsign.suffix, None);
}
