use levelspec::parse_string::{alpha_alphanumeric, gen_levelspec};
use levelspec::{LSpecError, LevelSpec};

#[test]
fn test_alphanum() {
    let l = alpha_alphanumeric("a123");
    assert_eq!(l, Some(("", "a123")));
    let l = alpha_alphanumeric("1a34");
    assert_eq!(l, None);
    let l = alpha_alphanumeric("aaa&");
    assert_eq!(l, Some(("&", "aaa")));
}

#[test]
fn shot_success() {
    let l = gen_levelspec("MARY.RD.9999");
    let e = LevelSpec::from_shot("MARY", "RD", "9999");
    assert_eq!(l, Ok(e));
}

#[test]
fn show_starts_with_num_failure() {
    let l = gen_levelspec("1MARY");
    assert_eq!(l, Err(LSpecError::GrammarMismatch));

    let l = gen_levelspec("1MARY.RD");
    assert_eq!(l, Err(LSpecError::GrammarMismatch));

    let l = gen_levelspec("1MARY.RD.9999");
    assert_eq!(l, Err(LSpecError::GrammarMismatch));
}

#[test]
fn shot_seq_wildcard_success() {
    let l = gen_levelspec("MARY.%.9999");
    let e = LevelSpec::from_shot("MARY", "%", "9999");
    assert_eq!(l, Ok(e));
}

#[test]
fn shot_seq_wildcard_shot_wc_success() {
    let l = gen_levelspec("MARY.%.%");
    let e = LevelSpec::from_shot("MARY", "%", "%");
    assert_eq!(l, Ok(e));
}

#[test]
fn shot_error() {
    let l = gen_levelspec("MARY.RD.9999@");
    assert_eq!(l, Err(LSpecError::GrammarMismatch));
}

#[test]
fn shot_wildcard_error() {
    let l = gen_levelspec("MARY.RD.%@");
    assert_eq!(l, Err(LSpecError::GrammarMismatch));
}

#[test]
fn seq_success() {
    let l = gen_levelspec("MARY.RD");
    let e = LevelSpec::from_sequence("MARY", "RD");
    assert_eq!(l, Ok(e));
}

#[test]
fn seq_error() {
    let l = gen_levelspec("MARY.RD#");
    assert_eq!(l, Err(LSpecError::GrammarMismatch));
}

#[test]
fn seq_error_prefix() {
    let l = gen_levelspec("MARY.#RD#");
    assert_eq!(l, Err(LSpecError::GrammarMismatch));
}

#[test]
fn show_success() {
    let l = gen_levelspec("MARY");
    let e = LevelSpec::from_show("MARY");
    assert_eq!(l, Ok(e));
}
