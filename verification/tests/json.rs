use symphony::json::Json;

#[test]
fn reads_and_writes_values() {
    let value = Json::parse(r#" { "b" : [1, -2, true, null], "a": "x\ny" } "#).unwrap();
    assert_eq!(value.to_text(), r#"{"a":"x\ny","b":[1,-2,true,null]}"#);
    assert_eq!(value.get("a").unwrap().as_str(), Some("x\ny"));
    let items = value.get("b").unwrap().as_array().unwrap();
    assert_eq!(items[0].as_u64(), Some(1));
    assert_eq!(items[1].as_i64(), Some(-2));
    assert_eq!(items[1].as_u64(), None);
    assert_eq!(items[2].as_bool(), Some(true));
    assert!(items[3].is_null());
    assert!(value.is_object());
    assert_eq!(value.clone(), value);
}

#[test]
fn keeps_numbers_that_no_integer_holds() {
    let value = Json::parse("[1.5, 18446744073709551616, 9223372036854775808]").unwrap();
    let items = value.as_array().unwrap();
    assert!(matches!(items[0], Json::Float(_)));
    assert!(matches!(items[1], Json::Float(_)));
    assert_eq!(items[2], Json::PosInt(9223372036854775808));
    assert_eq!(items[2].as_i64(), None);
    assert_eq!(value.to_text(), "[1.5,1.8446744073709552e+19,9223372036854775808]");
    assert_eq!(value.clone().to_text(), value.to_text());
}

#[test]
fn tells_what_is_wrong_with_a_text() {
    let error = Json::parse("{").unwrap_err();
    assert!(error.contains("EOF while parsing"));
}

#[test]
fn follows_paths_of_keys() {
    let value = Json::parse(r#"{"a": {"b": {"c": "deep"}}}"#).unwrap();
    assert_eq!(value.text_at(&["a", "b", "c"]), Some(String::from("deep")));
    assert_eq!(value.text_at(&["a", "b"]), None);
    assert_eq!(value.at(&["a", "x", "c"]), None);
    assert_eq!(value.member_text("a"), None);
}
