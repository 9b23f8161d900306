use hexgit::ver::{CompareOp, ParseSpecError, ParseVerSpecError, Spec, VerSpec};

fn parse(s: &str) -> Spec {
    Spec::parse(s).expect("valid spec")
}

#[test]
fn parse_full_spec() {
    let sp = parse(">= 1.2");
    assert!(matches!(sp.0, CompareOp::GreaterEqual));
    assert_eq!(sp.1.major, 1);
    assert_eq!(sp.1.minor, Some(2));
    assert_eq!(sp.1.patch, None);
}

#[test]
fn parse_all_operators() {
    assert!(matches!(parse("~ 1").0, CompareOp::Not));
    assert!(matches!(parse("= 1").0, CompareOp::Eq));
    assert!(matches!(parse("> 1").0, CompareOp::Greater));
    assert!(matches!(parse(">= 1").0, CompareOp::GreaterEqual));
    assert!(matches!(parse("< 1").0, CompareOp::Less));
    assert!(matches!(parse("<= 1").0, CompareOp::LessEqual));
}

#[test]
fn parse_wildcards() {
    let sp = parse("= 2");
    assert_eq!((sp.1.major, sp.1.minor, sp.1.patch), (2, None, None));
    let sp = parse("= 2.*");
    assert_eq!((sp.1.major, sp.1.minor, sp.1.patch), (2, None, None));
    let sp = parse("= 2.1.*");
    assert_eq!((sp.1.major, sp.1.minor, sp.1.patch), (2, Some(1), None));
    let sp = parse("= 2.*.3");
    assert_eq!((sp.1.major, sp.1.minor, sp.1.patch), (2, None, Some(3)));
}

#[test]
fn parse_error_empty() {
    assert!(matches!(Spec::parse(""), Err(ParseSpecError::EmptyString)));
}

#[test]
fn parse_error_empty_version() {
    assert!(matches!(
        VerSpec::parse(""),
        Err(ParseVerSpecError::EmptyString)
    ));
    assert!(matches!(
        Spec::parse("> "),
        Err(ParseSpecError::InvalidVersion(ParseVerSpecError::EmptyString))
    ));
}

#[test]
fn parse_error_missing_version() {
    assert!(matches!(
        Spec::parse(">="),
        Err(ParseSpecError::MissingVersion)
    ));
}

#[test]
fn parse_error_trailing() {
    match Spec::parse("> 1.2 extra") {
        Err(ParseSpecError::Trailing(t)) => assert_eq!(t, "extra"),
        other => panic!("expected trailing error, got {:?}", other),
    }
}

#[test]
fn parse_error_invalid_op() {
    match Spec::parse(">> 1.2") {
        Err(ParseSpecError::InvalidOp(t)) => assert_eq!(t, ">>"),
        other => panic!("expected invalid-op error, got {:?}", other),
    }
}

#[test]
fn parse_error_major_not_number() {
    match Spec::parse("> a.2") {
        Err(ParseSpecError::InvalidVersion(ParseVerSpecError::MajorNotNumber(t))) => {
            assert_eq!(t, "a")
        }
        other => panic!("expected major error, got {:?}", other),
    }
}

#[test]
fn parse_error_minor_not_valid() {
    match Spec::parse("> 1.x") {
        Err(ParseSpecError::InvalidVersion(ParseVerSpecError::MinorNotValid(t))) => {
            assert_eq!(t, "x")
        }
        other => panic!("expected minor error, got {:?}", other),
    }
}

#[test]
fn parse_error_patch_not_valid() {
    match Spec::parse("> 1.2.y") {
        Err(ParseSpecError::InvalidVersion(ParseVerSpecError::PatchNotValid(t))) => {
            assert_eq!(t, "y")
        }
        other => panic!("expected patch error, got {:?}", other),
    }
}

#[test]
fn parse_error_version_trailing() {
    match Spec::parse("> 1.2.3.4") {
        Err(ParseSpecError::InvalidVersion(ParseVerSpecError::Trailing(t))) => {
            assert_eq!(t, "4")
        }
        other => panic!("expected version trailing error, got {:?}", other),
    }
}

#[test]
fn display_round_trip() {
    for s in [
        "> 1.2.3",
        ">= 1.2",
        "<= 10.*.3",
        "= 4",
        "~ 0.0.1",
        "< 100.200.300",
    ] {
        let sp = parse(s);
        let rendered = sp.to_display_string();
        let again = parse(&rendered);
        let rendered2 = again.to_display_string();
        assert_eq!(rendered, rendered2);
        assert_eq!(sp.1.major, again.1.major);
        assert_eq!(sp.1.minor, again.1.minor);
        assert_eq!(sp.1.patch, again.1.patch);
    }
}

#[test]
fn display_wildcard_form() {
    let v = VerSpec {
        major: 1,
        minor: None,
        patch: None,
    };
    assert_eq!(v.to_display_string(), "1.*.*");
    let sp = parse(">= 1.2");
    assert_eq!(sp.to_display_string(), ">= 1.2.*");
}

#[test]
fn fullfill_eq_and_not() {
    let eq = parse("= 1.2");
    assert!(eq.fullfill(1, 2, 0));
    assert!(eq.fullfill(1, 2, 99));
    assert!(!eq.fullfill(1, 3, 0));
    assert!(!eq.fullfill(2, 2, 0));
    let not = parse("~ 1.2");
    assert!(!not.fullfill(1, 2, 0));
    assert!(not.fullfill(1, 3, 0));
}

#[test]
fn fullfill_greater_and_less() {
    let gt = parse("> 1.2.3");
    assert!(gt.fullfill(2, 0, 0));
    assert!(gt.fullfill(1, 3, 0));
    assert!(gt.fullfill(1, 2, 4));
    assert!(!gt.fullfill(1, 2, 3));
    assert!(!gt.fullfill(1, 2, 2));
    assert!(!gt.fullfill(0, 9, 9));
    let lt = parse("< 1.2.3");
    assert!(lt.fullfill(1, 2, 2));
    assert!(lt.fullfill(0, 9, 9));
    assert!(!lt.fullfill(1, 2, 3));
    assert!(!lt.fullfill(1, 2, 4));
}

#[test]
fn fullfill_derived_identities_sampled() {
    let triples = [
        (0u64, 0u64, 0u64),
        (1, 2, 3),
        (1, 2, 4),
        (1, 3, 0),
        (2, 0, 0),
        (1, 2, 2),
    ];
    for v in ["1.2.3", "1.2", "1", "1.*.3"] {
        let eq = parse(&format!("= {}", v));
        let not = parse(&format!("~ {}", v));
        let gt = parse(&format!("> {}", v));
        let ge = parse(&format!(">= {}", v));
        let le = parse(&format!("<= {}", v));
        let lt = parse(&format!("< {}", v));
        for (a, b, c) in triples {
            let e = eq.fullfill(a, b, c);
            let g = gt.fullfill(a, b, c);
            assert_eq!(not.fullfill(a, b, c), !e);
            assert_eq!(ge.fullfill(a, b, c), e || g);
            assert_eq!(le.fullfill(a, b, c), e || !g);
            assert_eq!(lt.fullfill(a, b, c), !g && !e);
        }
    }
}

#[test]
fn greater_wildcard_is_never_exceeded_within_major() {
    // A wildcarded minor stops the comparison: no version with the same
    // major exceeds the pattern, however large its minor and patch.
    let gt = parse("> 1.*");
    assert!(!gt.fullfill(1, 99, 99));
    assert!(!gt.fullfill(1, 0, 0));
    assert!(gt.fullfill(2, 0, 0));
    // Likewise a wildcarded patch under a fixed minor.
    let gt = parse("> 1.2.*");
    assert!(!gt.fullfill(1, 2, 99));
    assert!(gt.fullfill(1, 3, 0));
}

#[test]
fn parse_major_overflow_rejected() {
    assert!(Spec::parse("> 18446744073709551615").is_ok());
    match Spec::parse("> 18446744073709551616") {
        Err(ParseSpecError::InvalidVersion(ParseVerSpecError::MajorNotNumber(t))) => {
            assert_eq!(t, "18446744073709551616")
        }
        other => panic!("expected overflow rejection, got {:?}", other),
    }
}
