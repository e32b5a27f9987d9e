use anthropic_completions::json::Json;
use anthropic_completions::json_serde::{read_json, write_json};
use anthropic_completions::text::{chars_of, decimal_string, text_is, trimmed};


fn json(text: &str) -> Json {
    read_json(text).unwrap()
}

#[test]
fn trimmed_removes_unicode_white_space_at_both_ends() {
    assert_eq!(trimmed("  \t{\"a\":1}\r\n"), "{\"a\":1}");
    assert_eq!(trimmed("\u{3000}x y\u{A0}"), "x y");
    assert_eq!(trimmed(" \n\t "), "");
    assert_eq!(trimmed(""), "");
}

#[test]
fn decimal_string_writes_digits() {
    assert_eq!(decimal_string(0), "0");
    assert_eq!(decimal_string(4096), "4096");
    assert_eq!(decimal_string(u64::MAX), "18446744073709551615");
}

#[test]
fn text_is_compares_whole_texts() {
    assert!(text_is("user", "user"));
    assert!(!text_is("users", "user"));
    assert!(!text_is("", "x"));
    assert!(text_is("", ""));
}

#[test]
fn chars_of_keeps_every_character() {
    assert_eq!(chars_of("añb"), vec!['a', 'ñ', 'b']);
}

#[test]
fn accessors_read_members_and_numbers() {
    let v = json("{\"type\": \"message_start\", \"index\": 3, \"neg\": -2, \"f\": 1.5}");
    assert_eq!(v.str_at("type").unwrap(), "message_start");
    assert_eq!(v.get("index").unwrap().as_u64(), Some(3));
    assert_eq!(v.get("neg").unwrap().as_u64(), None);
    assert_eq!(v.get("f").unwrap().as_u64(), None);
    assert!(v.get("missing").is_none());
    assert!(v.get("index").unwrap().as_str().is_none());
}

#[test]
fn constructors_build_plain_values() {
    assert_eq!(write_json(&Json::unsigned(7)).unwrap(), "7");
    assert_eq!(Json::unsigned(7).as_u64(), Some(7));
    match Json::unsigned(4096) {
        Json::Number(n) => assert_eq!(n.text(), "4096"),
        other => panic!("{:?}", other),
    }
    assert_eq!(Json::empty_object(), Json::Object(Vec::new()));
    assert_eq!(Json::string("x"), Json::Str("x".to_string()));
}

#[test]
fn get_on_non_objects_finds_nothing() {
    let v = json("[1, 2]");
    assert!(v.get("0").is_none());
    assert!(Json::Null.get("a").is_none());
}

#[test]
fn clone_json_copies_nested_values() {
    let v = json("{\"a\": [true, null, {\"b\": \"c\"}]}");
    assert_eq!(v.clone_json(), v);
}

#[test]
fn read_and_write_json_text() {
    let v = read_json("{ \"b\" : [1, -2, 2.5, 1e300, \"x\"], \"a\" : {} }").unwrap();
    assert_eq!(write_json(&v).unwrap(), "{\"a\":{},\"b\":[1,-2,2.5,1e+300,\"x\"]}");
    assert!(read_json("{\"a\": ").is_none());
    assert!(read_json("").is_none());
    assert_eq!(write_json(&v.clone_json()).unwrap(), write_json(&v).unwrap());
}
