use levelspec::LevelType;

#[test]
fn to_string_term() {
    let l1 = LevelType::Term("Foobar".into());
    let e = l1.to_string();
    assert_eq!("Foobar".to_string(), e);
}

#[test]
fn to_wildcard_term() {
    let l1 = LevelType::Wildcard;
    let e = l1.to_string();
    assert_eq!("%".to_string(), e);
}

#[test]
fn to_none_term() {
    let l1 = LevelType::Absent;
    let e = l1.to_string();
    assert_eq!("".to_string(), e);
}

#[test]
fn is_term() {
    let lt = LevelType::Term("foo".into());
    assert!(lt.is_term());
    assert!(!lt.is_wildcard());
    assert!(!lt.is_none());
}

#[test]
fn is_wildcard() {
    let lt = LevelType::Wildcard;
    assert!(lt.is_wildcard());
    assert!(!lt.is_none());
    assert!(!lt.is_term());
}

#[test]
fn is_none() {
    let lt = LevelType::Absent;
    assert!(!lt.is_wildcard());
    assert!(lt.is_none());
    assert!(!lt.is_term());
}

#[test]
fn to_str_term() {
    let lt = LevelType::Term("foo".into());
    assert_eq!(lt.to_str(), Some("foo"));
}

#[test]
fn to_str_wildcard() {
    assert_eq!(LevelType::Wildcard.to_str(), Some("%"));
}

#[test]
fn to_str_absent() {
    assert_eq!(LevelType::Absent.to_str(), None);
}

#[test]
fn from_token_routes_wildcard() {
    let lt = LevelType::from_token("%");
    assert!(lt.is_wildcard());
    let lt = LevelType::from_token("abc");
    assert_eq!(lt, LevelType::Term("abc".into()));
}
