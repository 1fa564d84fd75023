use levelspec::LevelSpec;

#[test]
fn can_generate_from_show_str() {
    let ls1 = LevelSpec::from_show("DEVIT");
    let expected = LevelSpec::new("DEVIT").unwrap();
    assert_eq!(ls1, expected);
}

#[test]
fn returns_some_str_when_show_method_called() {
    let ls1 = LevelSpec::from_sequence("DEVIT", "RD");
    let show = ls1.show();
    assert_eq!(show, Some("DEVIT"));
}

#[test]
fn returns_some_str_when_seq_method_called() {
    let ls1 = LevelSpec::from_sequence("DEVIT", "RD");
    let seq = ls1.sequence();
    assert_eq!(seq, Some("RD"));
}

#[test]
fn returns_none_when_seq_doesnt_exist() {
    let ls1 = LevelSpec::from_show("DEVIT");
    let seq = ls1.sequence();
    assert_eq!(seq, None);
}

#[test]
fn returns_some_str_when_shot_method_called() {
    let ls1 = LevelSpec::from_shot("DEVIT", "RD", "0001");
    let shot = ls1.shot();
    assert_eq!(shot, Some("0001"));
}

#[test]
fn shot_none() {
    let ls1 = LevelSpec::from_sequence("DEVIT", "RD");
    let shot = ls1.shot();
    assert_eq!(shot, None);
}

#[test]
fn from_sequence() {
    let ls1 = LevelSpec::from_sequence("DEVIT", "RD");
    let expected = LevelSpec::new("DEVIT.RD").unwrap();
    assert_eq!(ls1, expected);
}

#[test]
fn from_shot() {
    let ls1 = LevelSpec::from_shot("DEVIT", "RD", "9999");
    let expected = LevelSpec::new("DEVIT.RD.9999").unwrap();
    assert_eq!(ls1, expected);
}

#[test]
fn from_shot_upper() {
    let mut ls1 = LevelSpec::from_shot("devit", "rd", "9999");
    ls1.upper();
    let expected = LevelSpec::from_shot("DEVIT", "RD", "9999");
    assert_eq!(ls1, expected);
}

#[test]
fn calling_new() {
    let lv = LevelSpec::new("SHOW.%.1000").unwrap();
    let lv2 = LevelSpec::from_shot("SHOW", "%", "1000");
    assert_eq!(lv, lv2);
}

#[test]
fn calling_new_err() {
    let lv = LevelSpec::new("SHOW.%.1000.");

    assert!(lv.is_err());
    let es = lv.unwrap_err().message();
    assert_eq!(es, "Alternative");
}

#[test]
fn to_vec() {
    let lv = LevelSpec::new("FOO.RD.1000").unwrap();
    let res = lv.to_vec();
    let joined = format!("{}.{}.{}", res[0], res[1], res[2]);
    assert_eq!(joined, "FOO.RD.1000".to_string());
}

#[test]
fn to_vec_str() {
    let lv = LevelSpec::new("FOO.RD.1000").unwrap();
    let res = lv.to_vec_str();
    let expected = vec!["FOO", "RD", "1000"];
    assert_eq!(expected, res);
}
