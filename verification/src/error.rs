//! Why a conversion between the two value trees failed.

use vstd::prelude::*;
use vstd::string::*;
use crate::decimal::{decimal, decimal_text};
use crate::value::{ResponseValueType, ValueError};

verus! {

/// A failed step of a conversion, with the kind of the node it was made on
/// and, for a member or an item, its name or its place.
#[derive(Debug, PartialEq, Eq)]
pub enum ConversionError {
    /// A number that is neither a 64-bit signed integer nor a float.
    UnrecognizedNumber(u64),
    /// The payload of a fresh node of this kind could not be set.
    SetValue { kind: ResponseValueType, cause: ValueError },
    /// Room for the known number of entries could not be reserved.
    Reserve { kind: ResponseValueType, capacity: usize, cause: ValueError },
    /// The item at this place could not be appended to its list.
    PushListEntry { index: usize, cause: ValueError },
    /// The member of this name could not be appended to its mapping.
    PushMapEntry { name: String, cause: ValueError },
    /// The payload of a node of this kind could not be taken out.
    Release { kind: ResponseValueType, cause: ValueError },
    /// The payload of a node of this kind could not be read.
    GetValue { kind: ResponseValueType, cause: ValueError },
}

/// The name of a kind of node, as the error texts spell it.
pub open spec fn kind_text(kind: ResponseValueType) -> Seq<char> {
    match kind {
        ResponseValueType::Mapping => "Map"@,
        ResponseValueType::List => "List"@,
        ResponseValueType::String => "String"@,
        ResponseValueType::Null => "Null"@,
        ResponseValueType::Boolean => "Boolean"@,
        ResponseValueType::Int => "Int"@,
        ResponseValueType::Float => "Float"@,
        ResponseValueType::EnumValue => "EnumValue"@,
        ResponseValueType::ID => "ID"@,
        ResponseValueType::Scalar => "Scalar"@,
    }
}

/// The name of a kind of node, as the error texts spell it.
pub fn kind_name(kind: ResponseValueType) -> (name: &'static str)
    ensures
        name@ == kind_text(kind),
{
    match kind {
        ResponseValueType::Mapping => "Map",
        ResponseValueType::List => "List",
        ResponseValueType::String => "String",
        ResponseValueType::Null => "Null",
        ResponseValueType::Boolean => "Boolean",
        ResponseValueType::Int => "Int",
        ResponseValueType::Float => "Float",
        ResponseValueType::EnumValue => "EnumValue",
        ResponseValueType::ID => "ID",
        ResponseValueType::Scalar => "Scalar",
    }
}

/// The text of a refusal by a node.
pub open spec fn cause_text(cause: ValueError) -> Seq<char> {
    match cause {
        ValueError::InvalidCall(kind) => "invalid call on a "@ + kind_text(kind) + " value"@,
        ValueError::Capacity(requested) => "no room for "@ + decimal_text(requested as nat)
            + " entries"@,
    }
}

/// The text of a refusal by a node.
pub fn cause_message(cause: ValueError) -> (message: String)
    ensures
        message@ == cause_text(cause),
{
    match cause {
        ValueError::InvalidCall(kind) => String::from_str("invalid call on a ").concat(
            kind_name(kind),
        ).concat(" value"),
        ValueError::Capacity(requested) => String::from_str("no room for ").concat(
            decimal(requested as u64).as_str(),
        ).concat(" entries"),
    }
}

/// The name of a kind in the text of a payload that could not be set: a
/// `Boolean` is spelled `Bool`.
pub open spec fn set_kind_text(kind: ResponseValueType) -> Seq<char> {
    if kind == ResponseValueType::Boolean {
        "Bool"@
    } else {
        kind_text(kind)
    }
}

/// What could not be released from a node of a kind: the entries of a
/// `Mapping` or a `List`, and else the node's own payload.
pub open spec fn release_kind_text(kind: ResponseValueType) -> Seq<char> {
    match kind {
        ResponseValueType::Mapping => "Map entries"@,
        ResponseValueType::List => "List entries"@,
        _ => kind_text(kind),
    }
}

/// The text for a fresh node of a kind that could not be had.
pub open spec fn allocate_failure_text(kind: ResponseValueType) -> Seq<char> {
    "Failed to allocate "@ + set_kind_text(kind) + " ResponseValue"@
}

/// The text for a payload of a kind that could not be set.
pub open spec fn set_failure_text(kind: ResponseValueType, cause: Seq<char>) -> Seq<char> {
    "Failed to set "@ + set_kind_text(kind) + ": "@ + cause
}

/// The text for room that could not be reserved.
pub open spec fn reserve_failure_text(
    kind: ResponseValueType,
    capacity: usize,
    cause: Seq<char>,
) -> Seq<char> {
    "Failed to reserve "@ + kind_text(kind) + " with capacity "@ + decimal_text(capacity as nat)
        + ": "@ + cause
}

/// The text for an item that could not be appended to its list.
pub open spec fn push_item_failure_text(index: usize, cause: Seq<char>) -> Seq<char> {
    "Failed to push entry "@ + decimal_text(index as nat) + " into List: "@ + cause
}

/// The text for a member that could not be appended to its mapping.
pub open spec fn push_member_failure_text(name: Seq<char>, cause: Seq<char>) -> Seq<char> {
    "Failed to push entry \""@ + name + "\" into Map: "@ + cause
}

/// The text for a payload of a kind that could not be taken out.
pub open spec fn release_failure_text(kind: ResponseValueType, cause: Seq<char>) -> Seq<char> {
    "Failed to release "@ + release_kind_text(kind) + ": "@ + cause
}

/// The text for a payload of a kind that could not be read.
pub open spec fn get_failure_text(kind: ResponseValueType, cause: Seq<char>) -> Seq<char> {
    "Failed to get "@ + kind_text(kind) + ": "@ + cause
}

/// The text for a release that gave nothing where a payload was due.
pub open spec fn null_payload_text(kind: ResponseValueType) -> Seq<char> {
    kind_text(kind) + " ResponseValue returned a null "@ + (if kind == ResponseValueType::Mapping
        || kind == ResponseValueType::List {
        "vector"@
    } else {
        "value"@
    })
}

/// The name of a kind in the text of a payload that could not be set.
fn set_kind_name(kind: ResponseValueType) -> (name: &'static str)
    ensures
        name@ == set_kind_text(kind),
{
    match kind {
        ResponseValueType::Boolean => "Bool",
        _ => kind_name(kind),
    }
}

/// The text for a fresh node of a kind that could not be had.
pub fn allocate_failure(kind: ResponseValueType) -> (message: String)
    ensures
        message@ == allocate_failure_text(kind),
{
    String::from_str("Failed to allocate ").concat(set_kind_name(kind)).concat(" ResponseValue")
}

/// The text for a payload of a kind that could not be set, with the words
/// of the cause.
pub fn set_failure(kind: ResponseValueType, cause: &str) -> (message: String)
    ensures
        message@ == set_failure_text(kind, cause@),
{
    String::from_str("Failed to set ").concat(set_kind_name(kind)).concat(": ").concat(cause)
}

/// The text for room that could not be reserved, with the words of the
/// cause.
pub fn reserve_failure(kind: ResponseValueType, capacity: usize, cause: &str) -> (message: String)
    ensures
        message@ == reserve_failure_text(kind, capacity, cause@),
{
    String::from_str("Failed to reserve ").concat(kind_name(kind)).concat(
        " with capacity ",
    ).concat(decimal(capacity as u64).as_str()).concat(": ").concat(cause)
}

/// The text for an item that could not be appended to its list, with the
/// words of the cause.
pub fn push_item_failure(index: usize, cause: &str) -> (message: String)
    ensures
        message@ == push_item_failure_text(index, cause@),
{
    String::from_str("Failed to push entry ").concat(decimal(index as u64).as_str()).concat(
        " into List: ",
    ).concat(cause)
}

/// The text for a member that could not be appended to its mapping, with
/// the words of the cause.
pub fn push_member_failure(name: &str, cause: &str) -> (message: String)
    ensures
        message@ == push_member_failure_text(name@, cause@),
{
    String::from_str("Failed to push entry \"").concat(name).concat("\" into Map: ").concat(cause)
}

/// The text for a payload of a kind that could not be taken out, with the
/// words of the cause.
pub fn release_failure(kind: ResponseValueType, cause: &str) -> (message: String)
    ensures
        message@ == release_failure_text(kind, cause@),
{
    let what = match kind {
        ResponseValueType::Mapping => "Map entries",
        ResponseValueType::List => "List entries",
        _ => kind_name(kind),
    };
    String::from_str("Failed to release ").concat(what).concat(": ").concat(cause)
}

/// The text for a payload of a kind that could not be read, with the words
/// of the cause.
pub fn get_failure(kind: ResponseValueType, cause: &str) -> (message: String)
    ensures
        message@ == get_failure_text(kind, cause@),
{
    String::from_str("Failed to get ").concat(kind_name(kind)).concat(": ").concat(cause)
}

/// The text for a release that gave nothing where a payload was due.
pub fn null_payload(kind: ResponseValueType) -> (message: String)
    ensures
        message@ == null_payload_text(kind),
{
    let what = match kind {
        ResponseValueType::Mapping => "vector",
        ResponseValueType::List => "vector",
        _ => "value",
    };
    String::from_str(kind_name(kind)).concat(" ResponseValue returned a null ").concat(what)
}

impl ConversionError {
    /// The text of the error: the step that failed, the kind of node and,
    /// for a member or an item, its name or place, then the cause.
    pub open spec fn text(self) -> Seq<char> {
        match self {
            ConversionError::UnrecognizedNumber(n) => "Unrecognized Number: "@ + decimal_text(
                n as nat,
            ),
            ConversionError::SetValue { kind, cause } => set_failure_text(kind, cause_text(cause)),
            ConversionError::Reserve { kind, capacity, cause } => reserve_failure_text(
                kind,
                capacity,
                cause_text(cause),
            ),
            ConversionError::PushListEntry { index, cause } => push_item_failure_text(
                index,
                cause_text(cause),
            ),
            ConversionError::PushMapEntry { name, cause } => push_member_failure_text(
                name@,
                cause_text(cause),
            ),
            ConversionError::Release { kind, cause } => release_failure_text(
                kind,
                cause_text(cause),
            ),
            ConversionError::GetValue { kind, cause } => get_failure_text(kind, cause_text(cause)),
        }
    }

    /// The text of the error.
    pub fn message(&self) -> (message: String)
        ensures
            message@ == self.text(),
    {
        match self {
            ConversionError::UnrecognizedNumber(n) => String::from_str(
                "Unrecognized Number: ",
            ).concat(decimal(*n).as_str()),
            ConversionError::SetValue { kind, cause } => set_failure(
                *kind,
                cause_message(*cause).as_str(),
            ),
            ConversionError::Reserve { kind, capacity, cause } => reserve_failure(
                *kind,
                *capacity,
                cause_message(*cause).as_str(),
            ),
            ConversionError::PushListEntry { index, cause } => push_item_failure(
                *index,
                cause_message(*cause).as_str(),
            ),
            ConversionError::PushMapEntry { name, cause } => push_member_failure(
                name.as_str(),
                cause_message(*cause).as_str(),
            ),
            ConversionError::Release { kind, cause } => release_failure(
                *kind,
                cause_message(*cause).as_str(),
            ),
            ConversionError::GetValue { kind, cause } => get_failure(
                *kind,
                cause_message(*cause).as_str(),
            ),
        }
    }
}

} // verus!
