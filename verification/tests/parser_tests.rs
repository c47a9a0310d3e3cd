use podns::parse_record;
use podns::ParserError;
use podns::PronounSet;
use podns::PronounTag;

fn check_ok(input: &str, expected_set: Option<PronounSet>, expected_comment: Option<&str>) {
    let record = parse_record(input).unwrap();
    assert_eq!(record.set, expected_set);
    assert_eq!(record.comment, expected_comment.map(|c| c.to_string()));
}

fn check_err(input: &str, expected_error: ParserError) {
    let result = parse_record(input);
    assert!(
        result.is_err(),
        "Expected error but got Ok - {:?}",
        result.unwrap()
    );
    assert_eq!(result.err().unwrap(), expected_error);
}

#[test]
fn test_simple() {
    check_ok(
        "she/her",
        Some(PronounSet::new_defined(
            "she".to_string(),
            "her".to_string(),
            None,
            None,
            None,
            vec![],
        )),
        None,
    );
}

#[test]
fn test_expanded() {
    check_ok(
        "they/them; preferred; plural # Example comment",
        Some(PronounSet::new_defined(
            "they".to_string(),
            "them".to_string(),
            None,
            None,
            None,
            vec![PronounTag::Preferred, PronounTag::Plural],
        )),
        Some("Example comment"),
    );
}

#[test]
fn test_parse_record_any() {
    check_ok("* # Any pronouns", Some(PronounSet::Any), Some("Any pronouns"));
}

#[test]
fn test_whitespaced_expanded() {
    check_ok(
        "  ze/hir  ;  preferred  #  Another comment  ",
        Some(PronounSet::new_defined(
            "ze".to_string(),
            "hir".to_string(),
            None,
            None,
            None,
            vec![PronounTag::Preferred],
        )),
        Some("Another comment"),
    );
}

#[test]
fn test_multiple_semicolons() {
    check_ok(
        "xe/xem;;; preferred;; plural # Comment",
        Some(PronounSet::new_defined(
            "xe".to_string(),
            "xem".to_string(),
            None,
            None,
            None,
            vec![PronounTag::Preferred, PronounTag::Plural],
        )),
        Some("Comment"),
    );
}

#[test]
fn test_only_comment() {
    check_ok("# Just a comment", None, Some("Just a comment"));
}

#[test]
fn test_error_not_enough_pronoun_parts() {
    check_err("she", ParserError::NotEnoughPronounParts);
}

#[test]
fn test_error_trailing_characters() {
    check_err("they/them; preferred extra", ParserError::InvalidFormat);
}

#[test]
fn test_error_too_many_pronoun_parts() {
    check_err(
        "they/them/their/theirs/themself/extra",
        ParserError::TooManyPronounParts,
    );
}

#[test]
fn test_error_trailing_slash() {
    check_err("they/them/ ", ParserError::TrailingSlash);
}

#[test]
fn test_error_trailing_slash_before_tag() {
    check_err("they/them/; preferred", ParserError::TrailingSlash);
}

#[test]
fn test_error_trailing_slash_before_comment() {
    check_err("they/them/ # comment", ParserError::TrailingSlash);
}

#[test]
fn test_error_empty() {
    check_err("   ", ParserError::Empty);
}

#[test]
fn test_rfc_example_1() {
    check_ok(
        "she/her",
        Some(PronounSet::new_defined(
            "she".to_string(),
            "her".to_string(),
            None,
            None,
            None,
            vec![],
        )),
        None,
    );
}

#[test]
fn test_rfc_example_2() {
    check_ok(
        "he/him/his/his/himself;preferred",
        Some(PronounSet::new_defined(
            "he".to_string(),
            "him".to_string(),
            Some("his".to_string()),
            Some("his".to_string()),
            Some("himself".to_string()),
            vec![PronounTag::Preferred],
        )),
        None,
    );
}

#[test]
fn test_rfc_example_3() {
    check_ok(
        "they/them/their/theirs/themself",
        Some(PronounSet::new_defined(
            "they".to_string(),
            "them".to_string(),
            Some("their".to_string()),
            Some("theirs".to_string()),
            Some("themself".to_string()),
            vec![],
        )),
        None,
    );
}

#[test]
fn test_rfc_example_4() {
    check_ok(
        "they/them;preferred;plural",
        Some(PronounSet::new_defined(
            "they".to_string(),
            "them".to_string(),
            None,
            None,
            None,
            vec![PronounTag::Preferred, PronounTag::Plural],
        )),
        None,
    );
}

#[test]
fn test_rfc_example_5() {
    check_ok("*", Some(PronounSet::Any), None);
}

#[test]
fn test_rfc_example_6() {
    check_ok("!", Some(PronounSet::NoPronouns), None);
}

#[test]
fn test_rfc_example_7() {
    check_ok(
        "ze/zir/zir/zirself",
        Some(PronounSet::new_defined(
            "ze".to_string(),
            "zir".to_string(),
            Some("zir".to_string()),
            Some("zirself".to_string()),
            None,
            vec![],
        )),
        None,
    );
}

#[test]
fn test_noncanonical_1() {
    check_ok(
        "SHE/HER #",
        Some(PronounSet::new_defined(
            "she".to_string(),
            "her".to_string(),
            None,
            None,
            None,
            vec![],
        )),
        Some(""),
    );
}

#[test]
fn test_noncanonical_2() {
    check_ok(
        "SHE /    HER #",
        Some(PronounSet::new_defined(
            "she".to_string(),
            "her".to_string(),
            None,
            None,
            None,
            vec![],
        )),
        Some(""),
    );
}

#[test]
fn test_noncanonical_3() {
    check_ok(
        "he/him;;;preferred #",
        Some(PronounSet::new_defined(
            "he".to_string(),
            "him".to_string(),
            None,
            None,
            None,
            vec![PronounTag::Preferred],
        )),
        Some(""),
    );
}

#[test]
fn test_rfc_error_1() {
    check_err("she/her/", ParserError::TrailingSlash);
}

#[test]
fn test_rfc_error_2() {
    check_err("she", ParserError::NotEnoughPronounParts);
}

#[test]
fn test_rfc_error_3() {
    check_err(
        "they/them/their/theirs/themself/extra",
        ParserError::TooManyPronounParts,
    );
}

#[test]
fn test_rfc_error_4() {
    check_err("she/her;unknown-tag", ParserError::InvalidTag);
}

#[test]
fn test_error_empty_pronoun_part() {
    check_err("she//her", ParserError::InvalidFormat);
}

#[test]
fn test_error_slash_before_any() {
    check_err("/she/her", ParserError::InvalidFormat);
}

#[test]
fn test_edge_case_1() {
    check_ok("#comment", None, Some("comment"));
}

#[test]
fn test_edge_case_2() {
    check_ok(
        "she/her#comment;plural",
        Some(PronounSet::new_defined(
            "she".to_string(),
            "her".to_string(),
            None,
            None,
            None,
            vec![],
        )),
        Some("comment;plural"),
    );
}

#[test]
fn test_edge_case_3() {
    check_ok("#they/them", None, Some("they/them"));
}

#[test]
fn test_edge_case_4() {
    check_ok(
        "they/them;plural#comment",
        Some(PronounSet::new_defined(
            "they".to_string(),
            "them".to_string(),
            None,
            None,
            None,
            vec![PronounTag::Plural],
        )),
        Some("comment"),
    );
}

#[test]
fn test_edge_case_5() {
    check_ok(
        "they/them#comment",
        Some(PronounSet::new_defined(
            "they".to_string(),
            "them".to_string(),
            None,
            None,
            None,
            vec![],
        )),
        Some("comment"),
    );
}

#[test]
fn test_edge_case_6() {
    check_ok(
        "they/them/their;;plural",
        Some(PronounSet::new_defined(
            "they".to_string(),
            "them".to_string(),
            Some("their".to_string()),
            None,
            None,
            vec![PronounTag::Plural],
        )),
        None,
    );
}

#[test]
fn test_edge_case_7() {
    check_ok(
        "she/her;plural;preferred",
        Some(PronounSet::new_defined(
            "she".to_string(),
            "her".to_string(),
            None,
            None,
            None,
            vec![PronounTag::Plural, PronounTag::Preferred],
        )),
        None,
    );
}

#[test]
fn test_error_tag_without_pronouns_1() {
    check_err(";preferred", ParserError::NotEnoughPronounParts);
}

#[test]
fn test_error_tag_without_pronouns_2() {
    check_err(";preferred;plural", ParserError::NotEnoughPronounParts);
}

#[test]
fn test_error_trailing_semicolon() {
    check_err("they/them;", ParserError::InvalidTag);
}

#[test]
fn test_error_invalid_tag() {
    check_err("they/them;notreal", ParserError::InvalidTag);
}

#[test]
fn test_error_slash_at_start() {
    check_err("/they/them", ParserError::InvalidFormat);
}

#[test]
fn test_error_whitespace_in_pronoun() {
    check_err("she  /h er", ParserError::InvalidFormat);
}

#[test]
fn test_tags_on_any_not_allowed() {
    check_err("*;preferred", ParserError::TagsNotAllowed);
}

#[test]
fn test_tags_on_none_not_allowed() {
    check_err("!;plural", ParserError::TagsNotAllowed);
}

#[test]
fn test_tag_dedup_keeps_one() {
    let record = parse_record("they/them;preferred;preferred").unwrap();
    match record.set.unwrap() {
        PronounSet::Defined { tags, .. } => {
            assert_eq!(tags, vec![PronounTag::Preferred]);
        }
        other => panic!("expected a defined set, got {:?}", other),
    }
}

#[test]
fn test_whitespace_tolerance_matches_tight_form() {
    let spaced = parse_record("  ze/hir  ;  preferred  #  note  ").unwrap();
    let tight = parse_record("ze/hir;preferred#note").unwrap();
    assert_eq!(spaced.set, tight.set);
    assert_eq!(spaced.comment.as_deref(), Some("note"));
    assert_eq!(tight.comment.as_deref(), Some("note"));
}

#[test]
fn test_case_normalization() {
    let record = parse_record("SHE/HER").unwrap();
    match record.set.unwrap() {
        PronounSet::Defined { definition, .. } => {
            assert_eq!(definition.subject(), "she");
            assert_eq!(definition.object(), "her");
        }
        other => panic!("expected a defined set, got {:?}", other),
    }
}

#[test]
fn test_canonical_family_fallback_from_parse() {
    let record = parse_record("she/her").unwrap();
    match record.set.unwrap() {
        PronounSet::Defined { definition, .. } => {
            assert_eq!(definition.possessive_determiner(), Some("her"));
            assert_eq!(definition.possessive_pronoun(), Some("hers"));
            assert_eq!(definition.reflexive(), Some("herself"));
        }
        other => panic!("expected a defined set, got {:?}", other),
    }
}

#[test]
fn test_round_trip_explicit_fields() {
    let first = parse_record("xe/xem/xyr/xyrs/xemself;plural # note").unwrap();
    let text = first.to_string();
    assert_eq!(text, "xe/xem/xyr/xyrs/xemself; plural # note");
    let second = parse_record(&text).unwrap();
    assert_eq!(first, second);
}

#[test]
fn test_round_trip_canonical_family() {
    let first = parse_record("she/her").unwrap();
    let second = parse_record(&first.to_string()).unwrap();
    assert_eq!(first, second);
}

#[test]
fn test_check_round_trip_on_parsed_record() {
    let record = parse_record("xe/xem/xyr/xyrs/xemself;plural # note").unwrap();
    assert!(podns::laws::check_round_trip(&record));
    let again = parse_record(&record.to_string()).unwrap();
    assert_eq!(record, again);
}

#[test]
fn test_check_round_trip_needs_a_defined_set() {
    let comment_only = parse_record("# just words").unwrap();
    assert!(!podns::laws::check_round_trip(&comment_only));
    let wildcard = parse_record("*").unwrap();
    assert!(!podns::laws::check_round_trip(&wildcard));
}

#[test]
fn test_check_round_trip_canonical_families() {
    for text in ["she/her", "he/him;preferred", "they/them/their/theirs/themself # hi"] {
        let record = parse_record(text).unwrap();
        assert!(podns::laws::check_round_trip(&record), "not ready: {}", text);
        assert_eq!(parse_record(&record.to_string()).unwrap(), record);
    }
}

#[test]
fn test_error_trailing_slash_at_end_of_input() {
    check_err("they/them/", ParserError::TrailingSlash);
}

#[test]
fn test_error_trailing_slash_after_one_field() {
    check_err("she/", ParserError::TrailingSlash);
}
