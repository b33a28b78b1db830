//! Conversion between the dynamic value and the typed tree, in both
//! directions.

use vstd::prelude::*;
use vstd::utf8::*;
use crate::error::ConversionError;
use crate::json::{
    array_model, distinct_names, insert_member, inserted, lemma_array_model,
    lemma_inserted_distinct, lemma_object_model, lemma_position_of, lemma_position_of_bounds,
    object_model, position_of, JsonModel, JsonNumber, JsonValue, NumberModel,
};
use crate::value::{
    entries_model, items_model, make_response_value, ResponseMapEntry, ResponseModel,
    ResponseValue, ResponseValueType, ValueError,
};

verus! {

/// The typed tree that a dynamic value converts to, or the first number, in
/// the order of the text, that is neither a 64-bit signed integer nor a float.
pub open spec fn typed_of(value: JsonModel) -> Result<ResponseModel, u64>
    decreases value,
{
    match value {
        JsonModel::Null => Ok(ResponseModel::Null),
        JsonModel::Bool(b) => Ok(ResponseModel::Boolean(b)),
        JsonModel::Number(NumberModel::Float(text)) => Ok(ResponseModel::Float(text)),
        JsonModel::Number(n) => match n.as_i64() {
            Some(i) => Ok(ResponseModel::Int(i)),
            None => Err(n->PosInt_0),
        },
        JsonModel::String(s) => Ok(ResponseModel::String(encode_utf8(s))),
        JsonModel::Array(items) => match typed_items(items) {
            Ok(children) => Ok(ResponseModel::List(children)),
            Err(n) => Err(n),
        },
        JsonModel::Object(members) => match typed_members(members) {
            Ok(children) => Ok(ResponseModel::Mapping(children)),
            Err(n) => Err(n),
        },
    }
}

/// The typed trees of the items, in order; the first failure ends it.
pub open spec fn typed_items(items: Seq<JsonModel>) -> Result<Seq<ResponseModel>, u64>
    decreases items,
{
    if items.len() == 0 {
        Ok(Seq::empty())
    } else {
        match typed_items(items.drop_last()) {
            Err(n) => Err(n),
            Ok(before) => match typed_of(items.last()) {
                Err(n) => Err(n),
                Ok(child) => Ok(before.push(child)),
            },
        }
    }
}

/// The typed members, in order, each name as its UTF-8 bytes; the first
/// failure ends it.
pub open spec fn typed_members(members: Seq<(Seq<char>, JsonModel)>) -> Result<
    Seq<(Seq<u8>, ResponseModel)>,
    u64,
>
    decreases members,
{
    if members.len() == 0 {
        Ok(Seq::empty())
    } else {
        match typed_members(members.drop_last()) {
            Err(n) => Err(n),
            Ok(before) => match typed_of(members.last().1) {
                Err(n) => Err(n),
                Ok(child) => Ok(before.push((encode_utf8(members.last().0), child))),
            },
        }
    }
}

/// The dynamic value that a typed tree converts to. A string that is not
/// UTF-8 gives `Null`; `EnumValue` and `ID` give plain strings; a `Scalar`
/// gives what its one wrapped value gives.
pub open spec fn dynamic_of(value: ResponseModel) -> JsonModel
    decreases value,
{
    match value {
        ResponseModel::Mapping(entries) => JsonModel::Object(dynamic_members(entries)),
        ResponseModel::List(items) => JsonModel::Array(dynamic_items(items)),
        ResponseModel::String(bytes) => dynamic_text(bytes),
        ResponseModel::EnumValue(bytes) => dynamic_text(bytes),
        ResponseModel::ID(bytes) => dynamic_text(bytes),
        ResponseModel::Null => JsonModel::Null,
        ResponseModel::Boolean(b) => JsonModel::Bool(b),
        ResponseModel::Int(n) => JsonModel::Number(NumberModel::from_i64(n)),
        ResponseModel::Float(text) => JsonModel::Number(NumberModel::Float(text)),
        ResponseModel::Scalar(inner) => dynamic_of(*inner),
    }
}

/// A string of the typed tree as a dynamic value.
pub open spec fn dynamic_text(bytes: Seq<u8>) -> JsonModel {
    if valid_utf8(bytes) {
        JsonModel::String(decode_utf8(bytes))
    } else {
        JsonModel::Null
    }
}

/// The dynamic values of the items, in order.
pub open spec fn dynamic_items(items: Seq<ResponseModel>) -> Seq<JsonModel>
    decreases items,
{
    if items.len() == 0 {
        Seq::empty()
    } else {
        dynamic_items(items.drop_last()).push(dynamic_of(items.last()))
    }
}

/// The members of the object that a mapping converts to: each member in
/// turn gives its name its value, a later one overwriting an earlier one of
/// the same name; a member whose name is not UTF-8 is left out.
pub open spec fn dynamic_members(entries: Seq<(Seq<u8>, ResponseModel)>) -> Seq<
    (Seq<char>, JsonModel),
>
    decreases entries,
{
    if entries.len() == 0 {
        Seq::empty()
    } else {
        let before = dynamic_members(entries.drop_last());
        if valid_utf8(entries.last().0) {
            inserted(before, decode_utf8(entries.last().0), dynamic_of(entries.last().1))
        } else {
            before
        }
    }
}

/// Whether converting the value asks for room first: a non-empty array or
/// object does.
pub open spec fn needs_room(value: JsonModel) -> bool {
    match value {
        JsonModel::Array(items) => items.len() > 0,
        JsonModel::Object(members) => members.len() > 0,
        _ => false,
    }
}

/// Whether a refusal of room for `capacity` entries of a node of the given
/// kind can come of converting the value: it comes of a non-empty array, as
/// a `List` with the number of its items, of a non-empty object, as a
/// `Mapping` with the number of its members, or of one of their children.
pub open spec fn room_refused(value: JsonModel, kind: ResponseValueType, capacity: usize) -> bool
    decreases value,
{
    match value {
        JsonModel::Array(items) => items.len() > 0 && ((kind == ResponseValueType::List
            && capacity == items.len()) || exists|i: int|
            0 <= i < items.len() && room_refused(#[trigger] items[i], kind, capacity)),
        JsonModel::Object(members) => members.len() > 0 && ((kind == ResponseValueType::Mapping
            && capacity == members.len()) || exists|i: int|
            0 <= i < members.len() && room_refused((#[trigger] members[i]).1, kind, capacity)),
        _ => false,
    }
}

/// A failure among the first items is the failure of the whole run.
pub proof fn lemma_typed_items_failure(items: Seq<JsonModel>, k: int)
    requires
        0 <= k <= items.len(),
        typed_items(items.take(k)) is Err,
    ensures
        typed_items(items) == typed_items(items.take(k)),
    decreases items.len() - k,
{
    if k < items.len() {
        assert(items.drop_last().take(k) =~= items.take(k));
        lemma_typed_items_failure(items.drop_last(), k);
    } else {
        assert(items.take(k) =~= items);
    }
}

/// A failure among the first members is the failure of the whole run.
pub proof fn lemma_typed_members_failure(members: Seq<(Seq<char>, JsonModel)>, k: int)
    requires
        0 <= k <= members.len(),
        typed_members(members.take(k)) is Err,
    ensures
        typed_members(members) == typed_members(members.take(k)),
    decreases members.len() - k,
{
    if k < members.len() {
        assert(members.drop_last().take(k) =~= members.take(k));
        lemma_typed_members_failure(members.drop_last(), k);
    } else {
        assert(members.take(k) =~= members);
    }
}

impl JsonValue {
    /// Converts the dynamic value to a typed tree, node by node. A number
    /// that is a 64-bit signed integer becomes an `Int`, a float a `Float`,
    /// and any other number ends the conversion. Before the members of a
    /// non-empty array or object are appended, room for all of them is
    /// reserved, and a refusal ends the conversion.
    pub fn try_into(self) -> (result: Result<ResponseValue, ConversionError>)
        ensures
            match result {
                Ok(tree) => typed_of(self@) == Ok::<ResponseModel, u64>(tree@),
                Err(ConversionError::UnrecognizedNumber(n)) => typed_of(self@) == Err::<
                    ResponseModel,
                    u64,
                >(n),
                Err(ConversionError::Reserve { kind, capacity, cause }) => room_refused(
                    self@,
                    kind,
                    capacity,
                ) && cause == ValueError::Capacity(capacity),
                Err(_) => false,
            },
            !needs_room(self@) && typed_of(self@) is Ok ==> result is Ok,
        decreases self,
    {
        match self {
            JsonValue::Null => Ok(make_response_value(ResponseValueType::Null)),
            JsonValue::Bool(value) => {
                let mut node = make_response_value(ResponseValueType::Boolean);
                match node.set_bool(value) {
                    Ok(()) => Ok(node),
                    Err(cause) => Err(
                        ConversionError::SetValue { kind: ResponseValueType::Boolean, cause },
                    ),
                }
            },
            JsonValue::Number(number) => {
                match number {
                    JsonNumber::Float(text) => {
                        let mut node = make_response_value(ResponseValueType::Float);
                        match node.set_float(text.as_str()) {
                            Ok(()) => Ok(node),
                            Err(cause) => Err(
                                ConversionError::SetValue { kind: ResponseValueType::Float, cause },
                            ),
                        }
                    },
                    integer => match integer.as_i64() {
                        Some(value) => {
                            let mut node = make_response_value(ResponseValueType::Int);
                            match node.set_int(value) {
                                Ok(()) => Ok(node),
                                Err(cause) => Err(
                                    ConversionError::SetValue {
                                        kind: ResponseValueType::Int,
                                        cause,
                                    },
                                ),
                            }
                        },
                        None => match integer {
                            JsonNumber::PosInt(n) => Err(ConversionError::UnrecognizedNumber(n)),
                            _ => Err(ConversionError::UnrecognizedNumber(0)),
                        },
                    },
                }
            },
            JsonValue::String(text) => {
                let mut node = make_response_value(ResponseValueType::String);
                match node.set_string(text.as_str()) {
                    Ok(()) => Ok(node),
                    Err(cause) => Err(
                        ConversionError::SetValue { kind: ResponseValueType::String, cause },
                    ),
                }
            },
            JsonValue::Array(items) => {
                let ghost all = array_model(items@);
                proof {
                    lemma_array_model(self);
                }
                let mut node = make_response_value(ResponseValueType::List);
                let count = items.len();
                if count > 0 {
                    match node.reserve(count) {
                        Ok(()) => {},
                        Err(cause) => {
                            return Err(
                                ConversionError::Reserve {
                                    kind: ResponseValueType::List,
                                    capacity: count,
                                    cause,
                                },
                            );
                        },
                    }
                    let mut index: usize = 0;
                    for item in it: items.into_iter()
                        invariant
                            index == it.index(),
                            it.seq() == items@,
                            all == array_model(items@),
                            count == items@.len(),
                            self == JsonValue::Array(items),
                            self@ == JsonModel::Array(all),
                            node@ is List,
                            typed_items(all.take(index as int)) == Ok::<Seq<ResponseModel>, u64>(
                                node@->List_0,
                            ),
                    {
                        assert(all.take(index + 1).drop_last() =~= all.take(index as int));
                        assert(all.take(index + 1).last() == item@);
                        assert(decreases_to!(self => items));
                        assert(decreases_to!(items => items[index as int]));
                        let child = match item.try_into() {
                            Ok(child) => child,
                            Err(error) => {
                                proof {
                                    assert(all[index as int] == item@);
                                    if typed_of(item@) is Err {
                                        lemma_typed_items_failure(all, index + 1);
                                    }
                                }
                                return Err(error);
                            },
                        };
                        match node.push_list_entry(child) {
                            Ok(()) => {},
                            Err(cause) => {
                                return Err(ConversionError::PushListEntry { index, cause });
                            },
                        }
                        index = index + 1;
                    }
                    assert(all.take(index as int) =~= all);
                }
                Ok(node)
            },
            JsonValue::Object(members) => {
                let ghost all = object_model(members@);
                proof {
                    lemma_object_model(self);
                }
                let mut node = make_response_value(ResponseValueType::Mapping);
                let count = members.len();
                if count > 0 {
                    match node.reserve(count) {
                        Ok(()) => {},
                        Err(cause) => {
                            return Err(
                                ConversionError::Reserve {
                                    kind: ResponseValueType::Mapping,
                                    capacity: count,
                                    cause,
                                },
                            );
                        },
                    }
                    let mut index: usize = 0;
                    for member in it: members.into_iter()
                        invariant
                            index == it.index(),
                            it.seq() == members@,
                            all == object_model(members@),
                            count == members@.len(),
                            self == JsonValue::Object(members),
                            self@ == JsonModel::Object(all),
                            node@ is Mapping,
                            typed_members(all.take(index as int)) == Ok::<
                                Seq<(Seq<u8>, ResponseModel)>,
                                u64,
                            >(node@->Mapping_0),
                    {
                        assert(all.take(index + 1).drop_last() =~= all.take(index as int));
                        assert(all.take(index + 1).last() == (member.0@, member.1@));
                        assert(decreases_to!(self => members));
                        assert(decreases_to!(members => members[index as int]));
                        assert(decreases_to!(member => member.1));
                        let (name, value) = member;
                        let child = match value.try_into() {
                            Ok(child) => child,
                            Err(error) => {
                                proof {
                                    assert(all[index as int].1 == member.1@);
                                    if typed_of(member.1@) is Err {
                                        lemma_typed_members_failure(all, index + 1);
                                    }
                                }
                                return Err(error);
                            },
                        };
                        match node.push_map_entry(name.as_str(), child) {
                            Ok(()) => {},
                            Err(cause) => {
                                return Err(ConversionError::PushMapEntry { name, cause });
                            },
                        }
                        index = index + 1;
                    }
                    assert(all.take(index as int) =~= all);
                }
                Ok(node)
            },
        }
    }
}

/// What a typed tree converts to is well formed: no object in it holds a
/// name twice, and every integer has its one form.
pub proof fn lemma_dynamic_well_formed(value: ResponseModel)
    ensures
        dynamic_of(value).well_formed(),
    decreases value,
{
    match value {
        ResponseModel::Mapping(entries) => {
            lemma_dynamic_members_well_formed(entries);
        },
        ResponseModel::List(items) => {
            lemma_dynamic_items_well_formed(items);
        },
        ResponseModel::Scalar(inner) => {
            lemma_dynamic_well_formed(*inner);
        },
        _ => {},
    }
}

/// The items that a list converts to are as many as the list's, and well
/// formed.
pub proof fn lemma_dynamic_items_well_formed(items: Seq<ResponseModel>)
    ensures
        dynamic_items(items).len() == items.len(),
        forall|i: int|
            0 <= i < items.len() ==> (#[trigger] dynamic_items(items)[i]).well_formed(),
    decreases items,
{
    if items.len() > 0 {
        lemma_dynamic_items_well_formed(items.drop_last());
        lemma_dynamic_well_formed(items.last());
    }
}

/// The members that a mapping converts to have distinct names and
/// well-formed values.
pub proof fn lemma_dynamic_members_well_formed(entries: Seq<(Seq<u8>, ResponseModel)>)
    ensures
        distinct_names(dynamic_members(entries)),
        forall|i: int|
            0 <= i < dynamic_members(entries).len() ==> (#[trigger] dynamic_members(
                entries,
            )[i]).1.well_formed(),
    decreases entries,
{
    if entries.len() > 0 {
        let before = dynamic_members(entries.drop_last());
        lemma_dynamic_members_well_formed(entries.drop_last());
        if valid_utf8(entries.last().0) {
            let name = decode_utf8(entries.last().0);
            let value = dynamic_of(entries.last().1);
            lemma_dynamic_well_formed(entries.last().1);
            lemma_inserted_distinct(before, name, value);
            lemma_position_of_bounds(before, name);
            let after = inserted(before, name, value);
            assert forall|i: int| 0 <= i < after.len() implies (
            #[trigger] after[i]).1.well_formed() by {
                if i != position_of(before, name) {
                    assert(after[i] == before[i]);
                }
            }
        }
    }
}

/// An item of a list is smaller than the list.
proof fn lemma_item_decreases(value: ResponseModel, index: int)
    requires
        value is List,
        0 <= index < value->List_0.len(),
    ensures
        decreases_to!(value => value->List_0[index]),
{
    match value {
        ResponseModel::List(items) => {
            assert(decreases_to!(value => items));
            assert(decreases_to!(items => items[index]));
        },
        _ => {},
    }
}

/// The value of a member of a mapping is smaller than the mapping.
proof fn lemma_member_decreases(value: ResponseModel, index: int)
    requires
        value is Mapping,
        0 <= index < value->Mapping_0.len(),
    ensures
        decreases_to!(value => value->Mapping_0[index].1),
{
    match value {
        ResponseModel::Mapping(entries) => {
            assert(decreases_to!(value => entries));
            assert(decreases_to!(entries => entries[index]));
            assert(decreases_to!(entries[index] => entries[index].1));
        },
        _ => {},
    }
}

/// The text that the bytes spell, where they are UTF-8.
///
/// Trusted: this is `String::from_utf8` of the standard library, which
/// gives the string of a byte vector that is valid UTF-8 and refuses any
/// other.
#[verifier::external_body]
fn utf8_text(bytes: Vec<u8>) -> (text: Option<String>)
    ensures
        text is Some <==> valid_utf8(bytes@),
        text is Some ==> text->Some_0@ == decode_utf8(bytes@),
{
    String::from_utf8(bytes).ok()
}

/// A string of the typed tree as a dynamic value: a plain string, or `Null`
/// where the bytes are not UTF-8.
fn text_value(bytes: Vec<u8>) -> (value: JsonValue)
    ensures
        value@ == dynamic_text(bytes@),
{
    match utf8_text(bytes) {
        Some(text) => JsonValue::String(text),
        None => JsonValue::Null,
    }
}

impl JsonValue {
    /// Converts a typed tree to the dynamic value, taking the tree apart
    /// node by node. `String`, `EnumValue` and `ID` all become plain strings.
    /// The members of a mapping are inserted in order, a later one
    /// overwriting an earlier one of the same name, and a member that does
    /// not convert is left out, as is an item of a list. A `Scalar` gives what
    /// its one wrapped value gives, or `Null` where that does not convert.
    pub fn try_from(value: ResponseValue) -> (result: Result<JsonValue, ConversionError>)
        ensures
            result is Ok,
            result->Ok_0@ == dynamic_of(value@),
            result->Ok_0@.well_formed(),
        decreases value@,
    {
        proof {
            lemma_dynamic_well_formed(value@);
        }
        match value.get_type() {
            ResponseValueType::Mapping => {
                let entries = match value.release_map() {
                    Ok(entries) => entries,
                    Err(cause) => {
                        return Err(
                            ConversionError::Release { kind: ResponseValueType::Mapping, cause },
                        );
                    },
                };
                let ghost all = entries_model(entries@);
                let mut members: Vec<(String, JsonValue)> = Vec::new();
                assert(object_model(members@) =~= dynamic_members(all.take(0)));
                for entry in it: entries.into_iter()
                    invariant
                        it.seq() == entries@,
                        all == entries_model(entries@),
                        value@ == ResponseModel::Mapping(all),
                        object_model(members@) == dynamic_members(all.take(it.index())),
                {
                    let ghost index = it.index();
                    assert(all.take(index + 1).drop_last() =~= all.take(index));
                    assert(all.take(index + 1).last() == entry@);
                    assert(decreases_to!(value@ => all[index].1)) by {
                        lemma_member_decreases(value@, index);
                    }
                    let ResponseMapEntry { name, value: child } = entry;
                    match utf8_text(name) {
                        Some(name) => match JsonValue::try_from(child) {
                            Ok(converted) => {
                                insert_member(&mut members, name, converted);
                            },
                            Err(_) => {},
                        },
                        None => {},
                    }
                }
                assert(all.take(entries@.len() as int) =~= all);
                let object = JsonValue::Object(members);
                proof {
                    lemma_object_model(object);
                }
                Ok(object)
            },
            ResponseValueType::List => {
                let children = match value.release_list() {
                    Ok(children) => children,
                    Err(cause) => {
                        return Err(
                            ConversionError::Release { kind: ResponseValueType::List, cause },
                        );
                    },
                };
                let ghost all = items_model(children@);
                let mut items: Vec<JsonValue> = Vec::new();
                assert(array_model(items@) =~= dynamic_items(all.take(0)));
                for child in it: children.into_iter()
                    invariant
                        it.seq() == children@,
                        all == items_model(children@),
                        value@ == ResponseModel::List(all),
                        array_model(items@) == dynamic_items(all.take(it.index())),
                {
                    let ghost index = it.index();
                    assert(all.take(index + 1).drop_last() =~= all.take(index));
                    assert(all.take(index + 1).last() == child@);
                    assert(decreases_to!(value@ => all[index])) by {
                        lemma_item_decreases(value@, index);
                    }
                    let ghost before = array_model(items@);
                    match JsonValue::try_from(child) {
                        Ok(converted) => {
                            items.push(converted);
                            assert(array_model(items@) =~= before.push(converted@));
                        },
                        Err(_) => {},
                    }
                }
                assert(all.take(children@.len() as int) =~= all);
                let array = JsonValue::Array(items);
                proof {
                    lemma_array_model(array);
                }
                Ok(array)
            },
            ResponseValueType::String | ResponseValueType::EnumValue | ResponseValueType::ID => {
                match value.release_string() {
                    Ok(bytes) => Ok(text_value(bytes)),
                    Err(cause) => Err(
                        ConversionError::Release { kind: ResponseValueType::String, cause },
                    ),
                }
            },
            ResponseValueType::Null => Ok(JsonValue::Null),
            ResponseValueType::Boolean => match value.get_bool() {
                Ok(held) => Ok(JsonValue::Bool(held)),
                Err(cause) => Err(
                    ConversionError::GetValue { kind: ResponseValueType::Boolean, cause },
                ),
            },
            ResponseValueType::Int => match value.get_int() {
                Ok(held) => Ok(JsonValue::Number(JsonNumber::from_i64(held))),
                Err(cause) => Err(
                    ConversionError::GetValue { kind: ResponseValueType::Int, cause },
                ),
            },
            ResponseValueType::Float => match value.get_float() {
                Ok(held) => Ok(JsonValue::Number(JsonNumber::Float(held))),
                Err(cause) => Err(
                    ConversionError::GetValue { kind: ResponseValueType::Float, cause },
                ),
            },
            ResponseValueType::Scalar => {
                let inner = match value.release_scalar() {
                    Ok(inner) => inner,
                    Err(cause) => {
                        return Err(
                            ConversionError::Release { kind: ResponseValueType::Scalar, cause },
                        );
                    },
                };
                match JsonValue::try_from(inner) {
                    Ok(converted) => Ok(converted),
                    Err(_) => Ok(JsonValue::Null),
                }
            },
        }
    }
}

impl JsonValue {
    /// Takes the value out, leaving `Null` behind, and converts what was
    /// taken to a typed tree, as `try_into` does.
    pub fn into_value(&mut self) -> (result: Result<ResponseValue, ConversionError>)
        ensures
            final(self)@ == JsonModel::Null,
            match result {
                Ok(tree) => typed_of(old(self)@) == Ok::<ResponseModel, u64>(tree@),
                Err(ConversionError::UnrecognizedNumber(n)) => typed_of(old(self)@) == Err::<
                    ResponseModel,
                    u64,
                >(n),
                Err(ConversionError::Reserve { kind, capacity, cause }) => room_refused(
                    old(self)@,
                    kind,
                    capacity,
                ) && cause == ValueError::Capacity(capacity),
                Err(_) => false,
            },
            !needs_room(old(self)@) && typed_of(old(self)@) is Ok ==> result is Ok,
    {
        let mut taken = JsonValue::Null;
        core::mem::swap(self, &mut taken);
        taken.try_into()
    }
}

/// Converts a typed tree to a dynamic value, as `JsonValue::try_from` does.
pub fn from_value(value: ResponseValue) -> (result: Result<Box<JsonValue>, ConversionError>)
    ensures
        result is Ok,
        result->Ok_0@ == dynamic_of(value@),
        result->Ok_0@.well_formed(),
{
    match JsonValue::try_from(value) {
        Ok(converted) => Ok(Box::new(converted)),
        Err(error) => Err(error),
    }
}

/// Whether the value is made of nulls, booleans, integers, strings, arrays
/// and objects alone: every number in it is a 64-bit signed integer.
pub open spec fn is_plain(value: JsonModel) -> bool
    decreases value,
{
    match value {
        JsonModel::Number(n) => n.as_i64() is Some,
        JsonModel::Array(items) => forall|i: int|
            0 <= i < items.len() ==> is_plain(#[trigger] items[i]),
        JsonModel::Object(members) => forall|i: int|
            0 <= i < members.len() ==> is_plain((#[trigger] members[i]).1),
        _ => true,
    }
}

/// Round trip: a well-formed dynamic value made of nulls, booleans,
/// integers, strings, arrays and objects alone converts to a typed tree, and
/// that tree converts back to the same value.
pub proof fn lemma_round_trip(value: JsonModel)
    requires
        value.well_formed(),
        is_plain(value),
    ensures
        typed_of(value) is Ok,
        dynamic_of(typed_of(value)->Ok_0) == value,
    decreases value,
{
    match value {
        JsonModel::String(s) => {
            encode_utf8_valid_utf8(s);
            encode_utf8_decode_utf8(s);
        },
        JsonModel::Array(items) => {
            lemma_round_trip_items(items);
        },
        JsonModel::Object(members) => {
            lemma_round_trip_members(members);
        },
        _ => {},
    }
}

/// Round trip for the items of an array.
pub proof fn lemma_round_trip_items(items: Seq<JsonModel>)
    requires
        forall|i: int| 0 <= i < items.len() ==> (#[trigger] items[i]).well_formed(),
        forall|i: int| 0 <= i < items.len() ==> is_plain(#[trigger] items[i]),
    ensures
        typed_items(items) is Ok,
        dynamic_items(typed_items(items)->Ok_0) == items,
    decreases items,
{
    if items.len() > 0 {
        let before = items.drop_last();
        lemma_round_trip_items(before);
        lemma_round_trip(items.last());
        let typed_before = typed_items(before)->Ok_0;
        let typed = typed_before.push(typed_of(items.last())->Ok_0);
        assert(typed.drop_last() =~= typed_before);
        assert(before.push(items.last()) =~= items);
    } else {
        assert(items =~= Seq::empty());
    }
}

/// Round trip for the members of an object whose names are distinct.
pub proof fn lemma_round_trip_members(members: Seq<(Seq<char>, JsonModel)>)
    requires
        distinct_names(members),
        forall|i: int| 0 <= i < members.len() ==> (#[trigger] members[i]).1.well_formed(),
        forall|i: int| 0 <= i < members.len() ==> is_plain((#[trigger] members[i]).1),
    ensures
        typed_members(members) is Ok,
        dynamic_members(typed_members(members)->Ok_0) == members,
    decreases members,
{
    if members.len() > 0 {
        let before = members.drop_last();
        let (name, value) = members.last();
        assert forall|i: int, j: int| 0 <= i < j < before.len() implies (#[trigger] before[i]).0
            != (#[trigger] before[j]).0 by {
            assert(before[i] == members[i]);
            assert(before[j] == members[j]);
        }
        assert forall|i: int| 0 <= i < before.len() implies (#[trigger] before[i]).1.well_formed()
            && is_plain(before[i].1) by {
            assert(before[i] == members[i]);
        }
        lemma_round_trip_members(before);
        lemma_round_trip(value);
        encode_utf8_valid_utf8(name);
        encode_utf8_decode_utf8(name);
        let typed_before = typed_members(before)->Ok_0;
        let typed = typed_before.push((encode_utf8(name), typed_of(value)->Ok_0));
        assert(typed.drop_last() =~= typed_before);
        assert forall|k: int| 0 <= k < before.len() implies (#[trigger] before[k]).0 != name by {
            assert(before[k] == members[k]);
            assert(members[members.len() - 1].0 == name);
        }
        lemma_position_of(before, name, before.len() as int);
        assert(before.push((name, value)) =~= members);
    } else {
        assert(members =~= Seq::empty());
    }
}

} // verus!
