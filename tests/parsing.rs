use modcopy::parse::{parse_mode_transfer_spec, ParseError, TransferSpec};
use modcopy::subject::Subject;

fn parsed(s: &str) -> TransferSpec {
    match parse_mode_transfer_spec(s) {
        Ok(t) => t,
        Err(e) => panic!("{:?} did not parse: {:?}", s, e),
    }
}

fn unknown_token(s: &str) -> String {
    match parse_mode_transfer_spec(s) {
        Err(ParseError::UnknownSubject(t)) => t,
        other => panic!("{:?} gave {:?}", s, other),
    }
}

#[test]
fn user_to_group() {
    let t = parsed("u-g");
    assert_eq!(t.source, Subject::User);
    assert_eq!(t.destinations, vec![Subject::Group]);
}

#[test]
fn group_to_user_and_other() {
    let t = parsed("g-uo");
    assert_eq!(t.source, Subject::Group);
    assert_eq!(t.destinations, vec![Subject::User, Subject::Other]);
}

#[test]
fn every_single_letter_pair() {
    let letters = [('u', Subject::User), ('g', Subject::Group), ('o', Subject::Other)];
    for (a, sa) in letters.iter() {
        for (b, sb) in letters.iter() {
            for sep in ['-', '+'].iter() {
                let text = format!("{}{}{}", a, sep, b);
                let t = parsed(&text);
                assert_eq!(t.source, *sa);
                assert_eq!(t.destinations, vec![*sb]);
            }
        }
    }
}

#[test]
fn plus_matches_minus() {
    let a = parsed("u+g");
    let b = parsed("u-g");
    assert_eq!(a.source, b.source);
    assert_eq!(a.destinations, b.destinations);
    let c = parsed("o+gu");
    assert_eq!(c.source, Subject::Other);
    assert_eq!(c.destinations, vec![Subject::Group, Subject::User]);
}

#[test]
fn unknown_source_letter() {
    assert_eq!(unknown_token("x-u"), "x");
}

#[test]
fn multi_letter_source_is_unknown() {
    assert_eq!(unknown_token("ug-o"), "ug");
}

#[test]
fn empty_source_is_unknown() {
    assert_eq!(unknown_token("-u"), "");
}

#[test]
fn unknown_destination_letter() {
    assert_eq!(unknown_token("u-gz"), "z");
    assert_eq!(unknown_token("u-qx"), "q");
}

#[test]
fn missing_separator_is_malformed() {
    match parse_mode_transfer_spec("ug") {
        Err(ParseError::MalformedSpec(s)) => assert_eq!(s, "ug"),
        other => panic!("gave {:?}", other),
    }
    match parse_mode_transfer_spec("") {
        Err(ParseError::MalformedSpec(s)) => assert_eq!(s, ""),
        other => panic!("gave {:?}", other),
    }
}

#[test]
fn duplicates_and_order_kept() {
    let t = parsed("u-gg");
    assert_eq!(t.source, Subject::User);
    assert_eq!(t.destinations, vec![Subject::Group, Subject::Group]);
    let t = parsed("u-ogu");
    assert_eq!(t.destinations, vec![Subject::Other, Subject::Group, Subject::User]);
}

#[test]
fn trailing_separator_gives_no_destinations() {
    let t = parsed("g-");
    assert_eq!(t.source, Subject::Group);
    assert!(t.destinations.is_empty());
}

#[test]
fn segments_after_the_second_are_ignored() {
    let t = parsed("u-g-zz");
    assert_eq!(t.source, Subject::User);
    assert_eq!(t.destinations, vec![Subject::Group]);
    let t = parsed("o+u+x");
    assert_eq!(t.source, Subject::Other);
    assert_eq!(t.destinations, vec![Subject::User]);
}

#[test]
fn plus_gives_the_same_errors() {
    assert_eq!(unknown_token("x+u"), "x");
    assert_eq!(unknown_token("u+gz"), "z");
    match parse_mode_transfer_spec("u+g") {
        Ok(t) => assert_eq!(t.destinations, vec![Subject::Group]),
        Err(e) => panic!("{:?}", e),
    }
}
