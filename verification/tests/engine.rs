use gqlmapi_rs::engine::{from_engine, keep, EngineMember, EngineNode};
use gqlmapi_rs::json::{JsonNumber, JsonValue};
use gqlmapi_rs::value::{ResponseMapEntry, ResponseValue};

fn bytes(s: &str) -> Vec<u8> {
    s.as_bytes().to_vec()
}

fn string(s: &str) -> JsonValue {
    JsonValue::String(s.to_string())
}

fn integer(n: i64) -> JsonValue {
    JsonValue::Number(JsonNumber::from_i64(n))
}

fn failed(text: &str) -> EngineNode {
    EngineNode::Failed(text.to_string())
}

fn named(name: &str, value: EngineNode) -> EngineMember {
    EngineMember { name: Some(bytes(name)), value: Some(value) }
}

#[test]
fn failure_at_the_root_fails_the_conversion() {
    assert_eq!(
        from_engine(failed("Failed to release Map entries: gone")),
        Err("Failed to release Map entries: gone".to_string())
    );
    assert_eq!(keep(failed("")), Err(String::new()));
}

#[test]
fn leaves_convert_as_typed_leaves_do() {
    assert_eq!(from_engine(EngineNode::Null), Ok(JsonValue::Null));
    assert_eq!(from_engine(EngineNode::Boolean(true)), Ok(JsonValue::Bool(true)));
    assert_eq!(from_engine(EngineNode::Int(-2)), Ok(integer(-2)));
    assert_eq!(from_engine(EngineNode::String(bytes("s"))), Ok(string("s")));
    assert_eq!(from_engine(EngineNode::EnumValue(bytes("RED"))), Ok(string("RED")));
    assert_eq!(from_engine(EngineNode::ID(bytes("7"))), Ok(string("7")));
    assert_eq!(from_engine(EngineNode::String(vec![0xff])), Ok(JsonValue::Null));
    assert_eq!(
        from_engine(EngineNode::Float(Some("1.5".to_string()))),
        Ok(JsonValue::Number(JsonNumber::Float("1.5".to_string())))
    );
}

#[test]
fn float_that_is_not_finite_becomes_null() {
    assert_eq!(from_engine(EngineNode::Float(None)), Ok(JsonValue::Null));
    assert_eq!(keep(EngineNode::Float(None)), Ok(ResponseValue::Null));
}

#[test]
fn failed_item_is_left_out_of_its_list() {
    let list = EngineNode::List(vec![
        EngineNode::Int(1),
        failed("Failed to get Int: boom"),
        EngineNode::List(vec![failed("x"), EngineNode::Null]),
        EngineNode::Int(3),
    ]);
    assert_eq!(
        from_engine(list),
        Ok(JsonValue::Array(vec![integer(1), JsonValue::Array(vec![JsonValue::Null]), integer(3)]))
    );
}

#[test]
fn member_without_name_or_value_is_left_out() {
    let mapping = EngineNode::Mapping(vec![
        named("a", EngineNode::Int(1)),
        EngineMember { name: None, value: Some(EngineNode::Int(2)) },
        EngineMember { name: Some(bytes("c")), value: None },
        named("d", failed("Failed to release String: boom")),
        EngineMember { name: Some(vec![0x80]), value: Some(EngineNode::Int(5)) },
        named("f", EngineNode::Boolean(false)),
        named("a", EngineNode::Int(7)),
    ]);
    assert_eq!(
        from_engine(mapping),
        Ok(JsonValue::Object(vec![
            ("a".to_string(), integer(7)),
            ("f".to_string(), JsonValue::Bool(false)),
        ]))
    );
}

#[test]
fn scalar_with_failed_value_becomes_null() {
    assert_eq!(from_engine(EngineNode::Scalar(Box::new(failed("boom")))), Ok(JsonValue::Null));
    assert_eq!(
        from_engine(EngineNode::Scalar(Box::new(EngineNode::ID(bytes("9"))))),
        Ok(string("9"))
    );
    assert_eq!(
        keep(EngineNode::Scalar(Box::new(failed("boom")))),
        Ok(ResponseValue::Scalar(Box::new(ResponseValue::Null)))
    );
}

#[test]
fn kept_tree_holds_what_did_not_fail() {
    let node = EngineNode::Mapping(vec![
        named("list", EngineNode::List(vec![failed("x"), EngineNode::EnumValue(bytes("A"))])),
        EngineMember { name: Some(vec![0x80]), value: Some(EngineNode::Null) },
    ]);
    assert_eq!(
        keep(node),
        Ok(ResponseValue::Mapping(vec![
            ResponseMapEntry {
                name: bytes("list"),
                value: ResponseValue::List(vec![ResponseValue::EnumValue(bytes("A"))]),
            },
            ResponseMapEntry { name: vec![0x80], value: ResponseValue::Null },
        ]))
    );
}
