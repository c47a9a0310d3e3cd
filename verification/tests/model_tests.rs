use std::cmp::Ordering;

use podns::parse_record;
use podns::qualify_domain;
use podns::CommonPronounDef;
use podns::PronounDef;
use podns::PronounRecord;
use podns::PronounSet;
use podns::PronounTag;

#[test]
fn test_basic() {
    let record = PronounRecord::new(
        Some(PronounSet::new_defined(
            "he".to_string(),
            "him".to_string(),
            None,
            None,
            None,
            vec![],
        )),
        None,
    );
    let display = record.to_string();
    assert_eq!(display, "he/him");
}

#[test]
fn test_comment_only() {
    let record = PronounRecord::new(None, Some("No pronouns".to_string()));
    let display = record.to_string();
    assert_eq!(display, "# No pronouns");
}

#[test]
fn test_any_and_none() {
    let any_record = PronounRecord::new(Some(PronounSet::Any), None);
    let none_record = PronounRecord::new(Some(PronounSet::NoPronouns), None);
    let display_any = any_record.to_string();
    let display_none = none_record.to_string();
    assert_eq!(display_any, "*");
    assert_eq!(display_none, "!");
}

#[test]
fn test_pronoun_record_display() {
    let record = PronounRecord::new(
        Some(PronounSet::new_defined(
            "they".to_string(),
            "them".to_string(),
            Some("their".to_string()),
            Some("theirs".to_string()),
            Some("themself".to_string()),
            vec![PronounTag::Preferred, PronounTag::Plural],
        )),
        Some("These are my pronouns".to_string()),
    );
    let display = record.to_string();
    assert_eq!(
        display,
        "they/them/their/theirs/themself; preferred; plural # These are my pronouns"
    );
}

#[test]
fn test_common_def_match() {
    let def = PronounDef::new("she".to_string(), "her".to_string(), None, None, None);

    assert_eq!(def.common_def(), Some(&CommonPronounDef::Feminine));
    assert_eq!(def.possessive_determiner(), Some("her"));
    assert_eq!(def.possessive_pronoun(), Some("hers"));
    assert_eq!(def.reflexive(), Some("herself"));
}

#[test]
fn test_explicit_field_beats_family_fallback() {
    let def = PronounDef::new(
        "she".to_string(),
        "her".to_string(),
        None,
        Some("hers".to_string()),
        None,
    );
    assert_eq!(def.common_def(), Some(&CommonPronounDef::Feminine));
    assert_eq!(def.possessive_pronoun(), Some("hers"));

    let mismatched = PronounDef::new(
        "she".to_string(),
        "her".to_string(),
        None,
        Some("zirs".to_string()),
        None,
    );
    assert_eq!(mismatched.common_def(), None);
    assert_eq!(mismatched.possessive_determiner(), None);
}

#[test]
fn test_serialization_skips_derived_fields() {
    let record = parse_record("they/them").unwrap();
    assert_eq!(record.to_string(), "they/them");
}

#[test]
fn test_tag_from_string() {
    assert_eq!(
        PronounTag::from_string("preferred".to_string()),
        Some(PronounTag::Preferred)
    );
    assert_eq!(
        PronounTag::from_string("plural".to_string()),
        Some(PronounTag::Plural)
    );
    assert_eq!(PronounTag::from_string("Preferred".to_string()), None);
    assert_eq!(PronounTag::from_string("other".to_string()), None);
}

#[test]
fn test_ordering_preferred_first() {
    let mut sets = vec![
        parse_record("!").unwrap().set.unwrap(),
        parse_record("*").unwrap().set.unwrap(),
        parse_record("they/them").unwrap().set.unwrap(),
        parse_record("she/her;preferred").unwrap().set.unwrap(),
    ];
    sets.sort_by(|a, b| a.compare(b));
    let texts: Vec<String> = sets.iter().map(|s| s.to_string()).collect();
    assert_eq!(texts, vec!["she/her; preferred", "they/them", "*", "!"]);
}

#[test]
fn test_ordering_by_subject_then_object() {
    let ze = parse_record("ze/hir").unwrap().set.unwrap();
    let ze2 = parse_record("ze/zir").unwrap().set.unwrap();
    let ey = parse_record("ey/em").unwrap().set.unwrap();
    assert_eq!(ey.compare(&ze), Ordering::Less);
    assert_eq!(ze.compare(&ze2), Ordering::Less);
    assert_eq!(ze2.compare(&ze), Ordering::Greater);
    assert_eq!(ze.compare(&ze), Ordering::Equal);
}

#[test]
fn test_qualify_domain() {
    assert_eq!(qualify_domain("kinda.red"), "pronouns.kinda.red");
    assert_eq!(qualify_domain("pronouns.kinda.red"), "pronouns.kinda.red");
    assert_eq!(qualify_domain(""), "pronouns.");
}
