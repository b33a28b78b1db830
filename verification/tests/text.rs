use gqlmapi_rs::json::{JsonNumber, JsonValue};
use gqlmapi_rs::text::{float_out_of_bounds, from_tree, parse_json, to_tree};

fn string(s: &str) -> JsonValue {
    JsonValue::String(s.to_string())
}

fn float(text: &str) -> JsonValue {
    JsonValue::Number(JsonNumber::Float(text.to_string()))
}

fn integer(n: i64) -> JsonValue {
    JsonValue::Number(JsonNumber::from_i64(n))
}

fn concat_text(parts: &[&str]) -> String {
    parts.concat()
}

fn member(name: &str, value: JsonValue) -> (String, JsonValue) {
    (name.to_string(), value)
}

#[test]
fn parses_every_kind_of_value() {
    let value = parse_json(r#"{"a":1,"b":[true,null,"x",-2,1.5],"c":{}}"#).expect("is JSON");
    assert_eq!(
        *value,
        JsonValue::Object(vec![
            member("a", integer(1)),
            member(
                "b",
                JsonValue::Array(vec![
                    JsonValue::Bool(true),
                    JsonValue::Null,
                    string("x"),
                    integer(-2),
                    float("1.5"),
                ]),
            ),
            member("c", JsonValue::Object(vec![])),
        ])
    );
}

#[test]
fn new_reads_as_parse_json_does() {
    assert_eq!(JsonValue::new("[1, 2]"), parse_json("[1,2]"));
    assert_eq!(*JsonValue::new(" null ").unwrap(), JsonValue::Null);
}

#[test]
fn malformed_text_is_refused_in_the_parsers_words() {
    let error = parse_json("{").expect_err("is not JSON");
    assert_eq!(error, "EOF while parsing an object at line 1 column 1");
    assert!(parse_json("").is_err());
    assert!(parse_json("[1,]").is_err());
    assert!(parse_json("{} x").is_err());
}

#[test]
fn members_keep_the_order_of_the_text() {
    let value = parse_json(r#"{"b":1,"a":2,"c":3}"#).unwrap();
    assert_eq!(
        *value,
        JsonValue::Object(vec![
            member("b", integer(1)),
            member("a", integer(2)),
            member("c", integer(3)),
        ])
    );
}

#[test]
fn repeated_name_keeps_first_place_and_last_value() {
    let value = parse_json(r#"{"a":1,"b":2,"a":3}"#).unwrap();
    assert_eq!(*value, JsonValue::Object(vec![member("a", integer(3)), member("b", integer(2))]));
}

#[test]
fn numbers_are_told_apart() {
    assert_eq!(*parse_json("0").unwrap(), JsonValue::Number(JsonNumber::PosInt(0)));
    assert_eq!(
        *parse_json("18446744073709551615").unwrap(),
        JsonValue::Number(JsonNumber::PosInt(u64::MAX))
    );
    assert_eq!(
        *parse_json("-9223372036854775808").unwrap(),
        JsonValue::Number(JsonNumber::NegInt(i64::MIN))
    );
    assert_eq!(*parse_json("1.0").unwrap(), float("1.0"));
    assert_eq!(*parse_json("1e2").unwrap(), float("100.0"));
    assert_eq!(*parse_json("-0.0").unwrap(), float("-0.0"));
}

#[test]
fn writes_compact_text() {
    let mut value = JsonValue::Object(vec![member(
        "data",
        JsonValue::Object(vec![member("__typename", string("Query"))]),
    )]);
    assert_eq!(value.to_json(), Ok(r#"{"data":{"__typename":"Query"}}"#.to_string()));
}

#[test]
fn to_json_leaves_null_behind() {
    let mut value = JsonValue::Array(vec![
        integer(1),
        string("a\"b"),
        JsonValue::Bool(false),
        JsonValue::Null,
    ]);
    assert_eq!(value.to_json(), Ok(r#"[1,"a\"b",false,null]"#.to_string()));
    assert_eq!(value, JsonValue::Null);
    assert_eq!(value.to_json(), Ok("null".to_string()));
}

#[test]
fn text_round_trips() {
    let text = concat_text(&[
        r#"{"errors":[{"message":"boom","locations":[{"line":1,"column":2}]}],"#,
        r#""data":null,"n":-7,"f":2.5}"#,
    ]);
    let text = text.as_str();
    let mut value = parse_json(text).unwrap();
    assert_eq!(value.to_json(), Ok(text.to_string()));
}

#[test]
fn float_is_written_as_the_number_it_reads_as() {
    let mut value = float("1.50");
    assert_eq!(value.to_json(), Ok("1.5".to_string()));
    let mut whole = float("3");
    assert_eq!(whole.to_json(), Ok("3".to_string()));
}

#[test]
fn float_that_is_no_number_has_no_text() {
    let mut value = JsonValue::Array(vec![integer(1), float("NaN")]);
    assert_eq!(value.to_json(), Err("Float value out of bounds".to_string()));
    assert_eq!(float_out_of_bounds(), "Float value out of bounds");
    assert_eq!(value, JsonValue::Null);
    let mut nested = JsonValue::Object(vec![member("x", float(""))]);
    assert_eq!(nested.to_json(), Err("Float value out of bounds".to_string()));
}

#[test]
fn integer_is_written_in_its_one_form() {
    let mut value = JsonValue::Number(JsonNumber::NegInt(5));
    assert_eq!(value.to_json(), Ok("5".to_string()));
    let mut big = JsonValue::Number(JsonNumber::PosInt(u64::MAX));
    assert_eq!(big.to_json(), Ok("18446744073709551615".to_string()));
}

#[test]
fn members_of_one_name_are_gathered_when_written() {
    let mut value = JsonValue::Object(vec![
        member("a", integer(1)),
        member("b", integer(2)),
        member("a", integer(3)),
    ]);
    assert_eq!(value.to_json(), Ok(r#"{"a":3,"b":2}"#.to_string()));
}

#[test]
fn tree_and_value_convert_both_ways() {
    let value = || {
        JsonValue::Object(vec![
            member("list", JsonValue::Array(vec![integer(1), string("two"), JsonValue::Null])),
            member("flag", JsonValue::Bool(true)),
        ])
    };
    let tree = to_tree(value()).expect("has a tree");
    assert_eq!(tree.to_string(), r#"{"list":[1,"two",null],"flag":true}"#);
    assert_eq!(from_tree(tree), value());
    assert_eq!(to_tree(float("x")), None);
}
