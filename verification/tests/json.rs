use oplire::json::{Json, Number};
use oplire::json::{object, set_member};
use oplire::json_text::{escape_json_string, to_text};
use oplire::proxy::messages::read_request;
use serde_json::Value;

fn parse(text: &str) -> Json {
    read_request(text.as_bytes()).expect("valid JSON")
}

#[test]
fn members_are_found_by_key() {
    let v = parse(r#"{"b":1,"a":{"c":"x","n":null},"list":[true,-3]}"#);
    assert_eq!(v.u64_at("b"), Some(1));
    assert_eq!(v.u64_at("a"), None);
    assert_eq!(v.str_in("a", "c"), Some("x"));
    assert_eq!(v.str_in("a", "d"), None);
    assert_eq!(v.str_in("list", "c"), None);
    assert!(v.get_in("a", "n").is_some_and(|n| n.is_null()));
    assert_eq!(v.arr_at("list").map(|l| l.len()), Some(2));
    assert_eq!(v.str_or("missing", "default"), "default");
    assert_eq!(v.u64_in("a", "n"), 0);
    assert_eq!(parse(r#"{"t":{"n":7}}"#).u64_in("t", "n"), 7);
    assert_eq!(parse(r#"{"s":false}"#).bool_at("s"), Some(false));
    assert_eq!(parse(r#"{"s":"false"}"#).bool_at("s"), None);
    assert!(Json::Null.get("a").is_none());
}

#[test]
fn a_negative_or_fractional_number_is_no_u64() {
    assert_eq!(parse(r#"{"n":-1}"#).u64_at("n"), None);
    assert_eq!(parse(r#"{"n":1.5}"#).u64_at("n"), None);
    assert_eq!(parse(r#"{"n":18446744073709551615}"#).u64_at("n"), Some(u64::MAX));
}

#[test]
fn an_object_keeps_its_keys_in_order() {
    let built = object(vec![
        ("type".to_string(), Json::Str("message".to_string())),
        ("id".to_string(), Json::Num(Number::Unsigned(1))),
        ("".to_string(), Json::Null),
        ("id2".to_string(), Json::Bool(true)),
    ]);
    assert_eq!(to_text(&built), r#"{"":null,"id":1,"id2":true,"type":"message"}"#);
}

#[test]
fn the_value_set_last_stays() {
    let mut members = vec![];
    set_member(&mut members, "a".to_string(), Json::Bool(false));
    set_member(&mut members, "b".to_string(), Json::Null);
    set_member(&mut members, "a".to_string(), Json::Bool(true));
    let o = Json::Obj(members);
    assert_eq!(o.bool_at("a"), Some(true));
    assert!(o.get("c").is_none());
    assert_eq!(to_text(&o), r#"{"a":true,"b":null}"#);
}

#[test]
fn a_clone_is_equal() {
    let v = parse(r#"{"a":[1,-2,3.5,"x",null,{"b":[]}]}"#);
    assert_eq!(v.clone(), v);
}

#[test]
fn escapes_quotes_and_control_characters() {
    assert_eq!(escape_json_string("a\"b\\c"), "a\\\"b\\\\c");
    assert_eq!(escape_json_string("\n\t\r\u{8}\u{c}"), "\\n\\t\\r\\b\\f");
    assert_eq!(escape_json_string("\u{1}\u{1f}\u{7f}"), "\\u0001\\u001f\u{7f}");
    assert_eq!(escape_json_string("/é漢\u{1F600}"), "/é漢\u{1F600}");
    assert_eq!(escape_json_string(""), "");
}

#[test]
fn an_escaped_string_is_one_line_and_reads_back() {
    let mut all = String::new();
    for c in 0u32..0x80 {
        all.push(char::from_u32(c).unwrap());
    }
    let escaped = escape_json_string(&all);
    assert!(escaped.chars().all(|c| c >= ' '));
    let back: String = serde_json::from_str(&format!("\"{}\"", escaped)).unwrap();
    assert_eq!(back, all);
}

#[test]
fn the_text_of_a_value_is_the_one_of_the_json_crate() {
    let source = r#" { "z" : [ 1, -2, 3.5, 1e300, true, false, null ], "a" : { "k\n" : "v\"" }, "m" : [], "o" : {} } "#;
    let value: Value = serde_json::from_str(source).unwrap();
    assert_eq!(to_text(&parse(source)), value.to_string());
    assert_eq!(
        to_text(&parse(r#"[18446744073709551615,-9223372036854775808,0]"#)),
        "[18446744073709551615,-9223372036854775808,0]"
    );
}
