use levelspec::{LSpecError, LevelSpec};

#[test]
fn single_token_populates_show_only() {
    let lv = LevelSpec::new("MARY").unwrap();
    assert_eq!(lv.show(), Some("MARY"));
    assert_eq!(lv.sequence(), None);
    assert_eq!(lv.shot(), None);
}

#[test]
fn two_tokens_populate_show_and_sequence() {
    let lv = LevelSpec::new("MARY.RD").unwrap();
    assert_eq!(lv.show(), Some("MARY"));
    assert_eq!(lv.sequence(), Some("RD"));
    assert_eq!(lv.shot(), None);
}

#[test]
fn three_tokens_populate_all_levels() {
    let lv = LevelSpec::new("MARY.RD.9999").unwrap();
    assert_eq!(lv.show(), Some("MARY"));
    assert_eq!(lv.sequence(), Some("RD"));
    assert_eq!(lv.shot(), Some("9999"));
}

#[test]
fn wildcard_alone_parses() {
    let lv = LevelSpec::new("%").unwrap();
    assert_eq!(lv.show(), Some("%"));
    assert_eq!(lv.sequence(), None);
    assert_eq!(lv.shot(), None);
}

#[test]
fn wildcard_pair_parses() {
    let lv = LevelSpec::new("%.%").unwrap();
    assert_eq!(lv.show(), Some("%"));
    assert_eq!(lv.sequence(), Some("%"));
    assert_eq!(lv.shot(), None);
}

#[test]
fn wildcard_triple_parses() {
    let lv = LevelSpec::new("%.%.%").unwrap();
    assert_eq!(lv.show(), Some("%"));
    assert_eq!(lv.sequence(), Some("%"));
    assert_eq!(lv.shot(), Some("%"));
    assert_eq!(lv.to_vec(), vec!["%".to_string(), "%".to_string(), "%".to_string()]);
}

#[test]
fn rejects_trailing_separator() {
    assert!(LevelSpec::new("SHOW.").is_err());
}

#[test]
fn rejects_leading_digit_in_show() {
    assert!(LevelSpec::new("1SHOW").is_err());
}

#[test]
fn rejects_illegal_character() {
    assert!(LevelSpec::new("SHOW#").is_err());
}

#[test]
fn rejects_more_than_three_levels() {
    assert_eq!(LevelSpec::new("AA.BB.CC.DD"), Err(LSpecError::GrammarMismatch));
}

#[test]
fn rejects_empty_input() {
    assert!(LevelSpec::new("").is_err());
}

#[test]
fn round_trip_joins_back_to_input() {
    let lv = LevelSpec::new("FOO.RD.1000").unwrap();
    assert_eq!(lv.to_vec(), vec!["FOO".to_string(), "RD".to_string(), "1000".to_string()]);
    assert_eq!(lv.to_vec().join("."), "FOO.RD.1000");
    let lv = LevelSpec::new("FOO.RD").unwrap();
    assert_eq!(lv.to_vec().join("."), "FOO.RD");
}

#[test]
fn upper_twice_equals_upper_once() {
    let mut once = LevelSpec::from_shot("devit", "rd", "09aa");
    once.upper();
    let mut twice = LevelSpec::from_shot("devit", "rd", "09aa");
    twice.upper();
    twice.upper();
    assert_eq!(once, twice);
}

#[test]
fn upper_is_noop_on_uppercase_value() {
    let mut lv = LevelSpec::from_shot("DEVIT", "RD", "9999");
    let expected = lv.clone();
    lv.upper();
    assert_eq!(lv, expected);
}

#[test]
fn parse_wildcard_sequence_scenario() {
    let lv = LevelSpec::new("SHOW.%.1000").unwrap();
    assert_eq!(lv.show(), Some("SHOW"));
    assert_eq!(lv.sequence(), Some("%"));
    assert_eq!(lv.shot(), Some("1000"));
}

#[test]
fn parse_then_upper_scenario() {
    let mut lv = LevelSpec::new("devit").unwrap();
    lv.upper();
    assert_eq!(lv.show(), Some("DEVIT"));
}

#[test]
fn upper_leaves_wildcards_alone() {
    let mut lv = LevelSpec::new("show.%.0001x").unwrap();
    lv.upper();
    assert_eq!(lv.show(), Some("SHOW"));
    assert_eq!(lv.sequence(), Some("%"));
    assert_eq!(lv.shot(), Some("0001X"));
}

#[test]
fn to_vec_stops_after_absent_sequence() {
    let lv = LevelSpec::from_show("DEVIT");
    assert_eq!(lv.to_vec(), vec!["DEVIT".to_string()]);
    assert_eq!(lv.to_vec_str(), vec!["DEVIT"]);
    let lv = LevelSpec::from_sequence("DEVIT", "RD");
    assert_eq!(lv.to_vec(), vec!["DEVIT".to_string(), "RD".to_string()]);
    assert_eq!(lv.to_vec_str(), vec!["DEVIT", "RD"]);
}

#[test]
fn grammar_mismatch_message() {
    let err = LevelSpec::new("not valid!").unwrap_err();
    assert_eq!(err.message(), "Alternative");
}

#[test]
fn boxed_underlying_message() {
    let err = LSpecError::BoxedUnderlying("disk on fire".to_string());
    assert_eq!(err.message(), "Boxed Error 'disk on fire'");
}

#[test]
fn sequence_and_shot_may_start_with_digit() {
    let lv = LevelSpec::new("MARY.2D.9999").unwrap();
    assert_eq!(lv.sequence(), Some("2D"));
    let lv = LevelSpec::new("MARY.RD.9x9").unwrap();
    assert_eq!(lv.shot(), Some("9x9"));
}

#[test]
fn to_vec_str_truncates_at_empty_level() {
    let lv = LevelSpec::from_sequence("", "RD");
    assert!(lv.to_vec_str().is_empty());
    assert_eq!(lv.to_vec(), vec!["".to_string(), "RD".to_string()]);
    let lv = LevelSpec::from_shot("AA", "", "BB");
    assert_eq!(lv.to_vec_str(), vec!["AA"]);
}
