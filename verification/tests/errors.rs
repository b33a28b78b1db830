use gqlmapi_rs::decimal::{decimal, signed_decimal};
use gqlmapi_rs::error::{
    allocate_failure, cause_message, get_failure, kind_name, null_payload, release_failure,
    set_failure, ConversionError,
};
use gqlmapi_rs::protocol::{
    map_exception, map_lock_error, map_recv_error, map_send_error, RoundTrip, Submission,
};
use gqlmapi_rs::value::{ResponseValueType, ValueError};

#[test]
fn decimal_text_of_numbers() {
    assert_eq!(decimal(0), "0");
    assert_eq!(decimal(7), "7");
    assert_eq!(decimal(10), "10");
    assert_eq!(decimal(1234567890), "1234567890");
    assert_eq!(decimal(u64::MAX), "18446744073709551615");
    assert_eq!(signed_decimal(0), "0");
    assert_eq!(signed_decimal(-1), "-1");
    assert_eq!(signed_decimal(i32::MAX), "2147483647");
    assert_eq!(signed_decimal(i32::MIN), "-2147483648");
}

#[test]
fn kinds_are_named() {
    assert_eq!(kind_name(ResponseValueType::Mapping), "Map");
    assert_eq!(kind_name(ResponseValueType::List), "List");
    assert_eq!(kind_name(ResponseValueType::String), "String");
    assert_eq!(kind_name(ResponseValueType::Null), "Null");
    assert_eq!(kind_name(ResponseValueType::Boolean), "Boolean");
    assert_eq!(kind_name(ResponseValueType::Int), "Int");
    assert_eq!(kind_name(ResponseValueType::Float), "Float");
    assert_eq!(kind_name(ResponseValueType::EnumValue), "EnumValue");
    assert_eq!(kind_name(ResponseValueType::ID), "ID");
    assert_eq!(kind_name(ResponseValueType::Scalar), "Scalar");
}

#[test]
fn causes_are_spelled_out() {
    assert_eq!(
        cause_message(ValueError::InvalidCall(ResponseValueType::Null)),
        "invalid call on a Null value"
    );
    assert_eq!(cause_message(ValueError::Capacity(12)), "no room for 12 entries");
}

#[test]
fn conversion_errors_name_step_kind_and_place() {
    let cause = ValueError::InvalidCall(ResponseValueType::Int);
    assert_eq!(
        ConversionError::UnrecognizedNumber(18446744073709551615).message(),
        "Unrecognized Number: 18446744073709551615"
    );
    assert_eq!(
        ConversionError::SetValue { kind: ResponseValueType::Float, cause }.message(),
        "Failed to set Float: invalid call on a Int value"
    );
    assert_eq!(
        ConversionError::Reserve {
            kind: ResponseValueType::List,
            capacity: 3,
            cause: ValueError::Capacity(3)
        }
        .message(),
        "Failed to reserve List with capacity 3: no room for 3 entries"
    );
    assert_eq!(
        ConversionError::Reserve {
            kind: ResponseValueType::Mapping,
            capacity: 40,
            cause: ValueError::Capacity(40)
        }
        .message(),
        "Failed to reserve Map with capacity 40: no room for 40 entries"
    );
    assert_eq!(
        ConversionError::PushListEntry { index: 2, cause }.message(),
        "Failed to push entry 2 into List: invalid call on a Int value"
    );
    assert_eq!(
        ConversionError::PushMapEntry { name: "data".to_string(), cause }.message(),
        "Failed to push entry \"data\" into Map: invalid call on a Int value"
    );
    assert_eq!(
        ConversionError::Release { kind: ResponseValueType::Scalar, cause }.message(),
        "Failed to release Scalar: invalid call on a Int value"
    );
    assert_eq!(
        ConversionError::Release { kind: ResponseValueType::Mapping, cause }.message(),
        "Failed to release Map entries: invalid call on a Int value"
    );
    assert_eq!(
        ConversionError::Release { kind: ResponseValueType::List, cause }.message(),
        "Failed to release List entries: invalid call on a Int value"
    );
    assert_eq!(
        ConversionError::SetValue { kind: ResponseValueType::Boolean, cause }.message(),
        "Failed to set Bool: invalid call on a Int value"
    );
    assert_eq!(
        ConversionError::GetValue { kind: ResponseValueType::Boolean, cause }.message(),
        "Failed to get Boolean: invalid call on a Int value"
    );
}

#[test]
fn protocol_errors_carry_their_cause() {
    assert_eq!(
        map_lock_error("poisoned lock: another task failed inside"),
        "Error locking mutex: poisoned lock: another task failed inside"
    );
    assert_eq!(
        map_send_error("sending on a closed channel"),
        "Error sending message: sending on a closed channel"
    );
    assert_eq!(
        map_recv_error("receiving on a closed channel"),
        "Error receiving message: receiving on a closed channel"
    );
    assert_eq!(map_exception("Unknown operation name: x"), "Unknown operation name: x");
    assert_eq!(map_lock_error(""), "Error locking mutex: ");
}

#[test]
fn submission_is_ok_only_when_sent() {
    assert_eq!(Submission::Sent.result(), Ok(()));
    assert_eq!(
        Submission::LockFailed("poisoned".to_string()).result(),
        Err("Error locking mutex: poisoned".to_string())
    );
    assert_eq!(
        Submission::SendFailed("closed".to_string()).result(),
        Err("Error sending message: closed".to_string())
    );
}

#[test]
fn round_trip_gives_identifier_or_error() {
    assert_eq!(RoundTrip::Replied(Ok(17)).result(), Ok(17));
    assert_eq!(
        RoundTrip::Replied(Err("syntax error".to_string())).result(),
        Err("syntax error".to_string())
    );
    assert_eq!(
        RoundTrip::LockFailed("poisoned".to_string()).result(),
        Err("Error locking mutex: poisoned".to_string())
    );
    assert_eq!(
        RoundTrip::SendFailed("closed".to_string()).result(),
        Err("Error sending message: closed".to_string())
    );
    assert_eq!(
        RoundTrip::ReceiveFailed("closed".to_string()).result(),
        Err("Error receiving message: closed".to_string())
    );
}

#[test]
fn failures_carry_the_words_of_their_cause() {
    assert_eq!(set_failure(ResponseValueType::Boolean, "boom"), "Failed to set Bool: boom");
    assert_eq!(set_failure(ResponseValueType::String, ""), "Failed to set String: ");
    assert_eq!(
        release_failure(ResponseValueType::Mapping, "boom"),
        "Failed to release Map entries: boom"
    );
    assert_eq!(
        release_failure(ResponseValueType::List, "boom"),
        "Failed to release List entries: boom"
    );
    assert_eq!(
        release_failure(ResponseValueType::String, "boom"),
        "Failed to release String: boom"
    );
    assert_eq!(
        release_failure(ResponseValueType::Scalar, "boom"),
        "Failed to release Scalar: boom"
    );
    assert_eq!(get_failure(ResponseValueType::Boolean, "boom"), "Failed to get Boolean: boom");
    assert_eq!(get_failure(ResponseValueType::Int, "boom"), "Failed to get Int: boom");
    assert_eq!(get_failure(ResponseValueType::Float, "boom"), "Failed to get Float: boom");
    assert_eq!(
        allocate_failure(ResponseValueType::Boolean),
        "Failed to allocate Bool ResponseValue"
    );
}

#[test]
fn missing_payloads_are_named_by_kind() {
    assert_eq!(
        null_payload(ResponseValueType::Mapping),
        "Map ResponseValue returned a null vector"
    );
    assert_eq!(null_payload(ResponseValueType::List), "List ResponseValue returned a null vector");
    assert_eq!(
        null_payload(ResponseValueType::String),
        "String ResponseValue returned a null value"
    );
    assert_eq!(
        null_payload(ResponseValueType::Scalar),
        "Scalar ResponseValue returned a null value"
    );
}
