use blindtally::election::{Candidate, ParseCandidateError, ALL_CANDIDATES, NUM_CANDIDATES};

#[test]
fn parse_accepts_names_in_any_ascii_case() {
    assert_eq!(Candidate::parse("alice").unwrap(), Candidate::Alice);
    assert_eq!(Candidate::parse("ALICE").unwrap(), Candidate::Alice);
    assert_eq!(Candidate::parse("AlIcE").unwrap(), Candidate::Alice);
    assert_eq!(Candidate::parse("bob").unwrap(), Candidate::Bob);
    assert_eq!(Candidate::parse("Bob").unwrap(), Candidate::Bob);
}

#[test]
fn parse_refuses_other_text() {
    for s in ["", "carol", "alic", "alicee", " alice", "alice ", "bob\n", "ålice", "b0b"] {
        assert!(Candidate::parse(s).is_err(), "{s:?}");
    }
}

#[test]
fn from_str_is_parse() {
    let c: Candidate = "BOB".parse().unwrap();
    assert_eq!(c, Candidate::Bob);
    let e: Result<Candidate, ParseCandidateError> = "dave".parse();
    assert!(e.is_err());
}

#[test]
fn ids_follow_all_candidates() {
    assert_eq!(NUM_CANDIDATES, 2);
    assert_eq!(ALL_CANDIDATES.len(), NUM_CANDIDATES);
    for (i, c) in ALL_CANDIDATES.iter().enumerate() {
        assert_eq!(c.id() as usize, i);
        assert_eq!(Candidate::from_id(c.id()), Some(*c));
    }
    assert_eq!(Candidate::Alice.id(), 0);
    assert_eq!(Candidate::Bob.id(), 1);
    assert_eq!(Candidate::from_id(2), None);
    assert_eq!(Candidate::from_id(255), None);
}

#[test]
fn shown_names_parse_back() {
    assert_eq!(Candidate::Alice.name(), "Alice");
    assert_eq!(Candidate::Bob.name(), "Bob");
    for c in ALL_CANDIDATES {
        assert_eq!(Candidate::parse(c.name()).unwrap(), c);
        assert_eq!(format!("{c:?}"), c.name());
    }
}
