//! The engine's typed response-value tree.

use vstd::prelude::*;
use vstd::string::*;

verus! {

/// The kind of a node in the typed tree.
#[derive(Clone, Copy, Debug, PartialEq, Eq, Structural)]
pub enum ResponseValueType {
    Mapping,
    List,
    String,
    Null,
    Boolean,
    Int,
    Float,
    EnumValue,
    ID,
    Scalar,
}

/// One member of a `Mapping` node. The engine keeps names and strings as raw
/// bytes, so a name is not known to be UTF-8.
#[derive(Debug, PartialEq, Eq)]
pub struct ResponseMapEntry {
    pub name: Vec<u8>,
    pub value: ResponseValue,
}

/// A node of the typed tree. A `Float` holds its number as decimal text, which
/// is carried through and never computed on.
#[derive(Debug, PartialEq, Eq)]
pub enum ResponseValue {
    Mapping(Vec<ResponseMapEntry>),
    List(Vec<ResponseValue>),
    String(Vec<u8>),
    Null,
    Boolean(bool),
    Int(i64),
    Float(String),
    EnumValue(Vec<u8>),
    ID(Vec<u8>),
    Scalar(Box<ResponseValue>),
}

/// The mathematical value of a typed tree.
pub enum ResponseModel {
    Mapping(Seq<(Seq<u8>, ResponseModel)>),
    List(Seq<ResponseModel>),
    String(Seq<u8>),
    Null,
    Boolean(bool),
    Int(i64),
    Float(Seq<char>),
    EnumValue(Seq<u8>),
    ID(Seq<u8>),
    Scalar(Box<ResponseModel>),
}

impl View for ResponseMapEntry {
    type V = (Seq<u8>, ResponseModel);

    open spec fn view(&self) -> (Seq<u8>, ResponseModel) {
        (self.name@, self.value.model())
    }
}

impl ResponseValue {
    /// The mathematical value of this tree.
    pub open spec fn model(&self) -> ResponseModel
        decreases self,
    {
        match self {
            ResponseValue::Mapping(entries) => ResponseModel::Mapping(
                Seq::new(
                    entries.len() as nat,
                    |i: int|
                        if 0 <= i < entries.len() {
                            (entries[i].name@, entries[i].value.model())
                        } else {
                            (Seq::empty(), ResponseModel::Null)
                        },
                ),
            ),
            ResponseValue::List(items) => ResponseModel::List(
                Seq::new(
                    items.len() as nat,
                    |i: int|
                        if 0 <= i < items.len() {
                            items[i].model()
                        } else {
                            ResponseModel::Null
                        },
                ),
            ),
            ResponseValue::String(bytes) => ResponseModel::String(bytes@),
            ResponseValue::Null => ResponseModel::Null,
            ResponseValue::Boolean(b) => ResponseModel::Boolean(*b),
            ResponseValue::Int(n) => ResponseModel::Int(*n),
            ResponseValue::Float(text) => ResponseModel::Float(text@),
            ResponseValue::EnumValue(bytes) => ResponseModel::EnumValue(bytes@),
            ResponseValue::ID(bytes) => ResponseModel::ID(bytes@),
            ResponseValue::Scalar(inner) => ResponseModel::Scalar(Box::new((**inner).model())),
        }
    }
}

impl View for ResponseValue {
    type V = ResponseModel;

    open spec fn view(&self) -> ResponseModel {
        self.model()
    }
}

/// Why an operation on a node was refused.
#[derive(Clone, Copy, Debug, PartialEq, Eq, Structural)]
pub enum ValueError {
    /// The operation is not defined for a node of this kind.
    InvalidCall(ResponseValueType),
    /// Storage for this many further entries could not be had.
    Capacity(usize),
}

impl ResponseModel {
    /// The kind of the node at the root.
    pub open spec fn kind(self) -> ResponseValueType {
        match self {
            ResponseModel::Mapping(_) => ResponseValueType::Mapping,
            ResponseModel::List(_) => ResponseValueType::List,
            ResponseModel::String(_) => ResponseValueType::String,
            ResponseModel::Null => ResponseValueType::Null,
            ResponseModel::Boolean(_) => ResponseValueType::Boolean,
            ResponseModel::Int(_) => ResponseValueType::Int,
            ResponseModel::Float(_) => ResponseValueType::Float,
            ResponseModel::EnumValue(_) => ResponseValueType::EnumValue,
            ResponseModel::ID(_) => ResponseValueType::ID,
            ResponseModel::Scalar(_) => ResponseValueType::Scalar,
        }
    }
}

impl ResponseModel {
    /// The node that `make_response_value` gives for a kind: no members, the
    /// empty string, `false`, zero, and for `Scalar` a wrapped `Null`.
    pub open spec fn empty(kind: ResponseValueType) -> ResponseModel {
        match kind {
            ResponseValueType::Mapping => ResponseModel::Mapping(Seq::empty()),
            ResponseValueType::List => ResponseModel::List(Seq::empty()),
            ResponseValueType::String => ResponseModel::String(Seq::empty()),
            ResponseValueType::Null => ResponseModel::Null,
            ResponseValueType::Boolean => ResponseModel::Boolean(false),
            ResponseValueType::Int => ResponseModel::Int(0),
            ResponseValueType::Float => ResponseModel::Float("0.0"@),
            ResponseValueType::EnumValue => ResponseModel::EnumValue(Seq::empty()),
            ResponseValueType::ID => ResponseModel::ID(Seq::empty()),
            ResponseValueType::Scalar => ResponseModel::Scalar(Box::new(ResponseModel::Null)),
        }
    }

    /// Whether the node holds members or items.
    pub open spec fn is_container(self) -> bool {
        self is Mapping || self is List
    }

    /// Whether the node holds a string: `String`, `EnumValue` and `ID` do.
    pub open spec fn is_text(self) -> bool {
        self is String || self is EnumValue || self is ID
    }

    /// The node with its string replaced, its kind kept.
    pub open spec fn with_text(self, bytes: Seq<u8>) -> ResponseModel {
        match self {
            ResponseModel::EnumValue(_) => ResponseModel::EnumValue(bytes),
            ResponseModel::ID(_) => ResponseModel::ID(bytes),
            _ => ResponseModel::String(bytes),
        }
    }

    /// The string that the node holds.
    pub open spec fn text(self) -> Seq<u8> {
        match self {
            ResponseModel::String(bytes) => bytes,
            ResponseModel::EnumValue(bytes) => bytes,
            ResponseModel::ID(bytes) => bytes,
            _ => Seq::empty(),
        }
    }
}

impl ResponseValue {
    /// The kind of this node.
    pub fn get_type(&self) -> (kind: ResponseValueType)
        ensures
            kind == self@.kind(),
    {
        match self {
            ResponseValue::Mapping(_) => ResponseValueType::Mapping,
            ResponseValue::List(_) => ResponseValueType::List,
            ResponseValue::String(_) => ResponseValueType::String,
            ResponseValue::Null => ResponseValueType::Null,
            ResponseValue::Boolean(_) => ResponseValueType::Boolean,
            ResponseValue::Int(_) => ResponseValueType::Int,
            ResponseValue::Float(_) => ResponseValueType::Float,
            ResponseValue::EnumValue(_) => ResponseValueType::EnumValue,
            ResponseValue::ID(_) => ResponseValueType::ID,
            ResponseValue::Scalar(_) => ResponseValueType::Scalar,
        }
    }
}

/// The values of a run of nodes, in order.
pub open spec fn items_model(items: Seq<ResponseValue>) -> Seq<ResponseModel> {
    Seq::new(items.len(), |i: int| items[i].model())
}

/// The names and values of a run of members, in order.
pub open spec fn entries_model(entries: Seq<ResponseMapEntry>) -> Seq<(Seq<u8>, ResponseModel)> {
    Seq::new(entries.len(), |i: int| (entries[i].name@, entries[i].value.model()))
}

/// A `List` node's value is the values of its items.
pub proof fn lemma_list_model(node: ResponseValue)
    requires
        node is List,
    ensures
        node@ == ResponseModel::List(items_model(node->List_0@)),
{
    assert(node@->List_0 =~= items_model(node->List_0@));
}

/// A `Mapping` node's value is the names and values of its members.
pub proof fn lemma_mapping_model(node: ResponseValue)
    requires
        node is Mapping,
    ensures
        node@ == ResponseModel::Mapping(entries_model(node->Mapping_0@)),
{
    assert(node@->Mapping_0 =~= entries_model(node->Mapping_0@));
}

/// The result of asking a node of the given kind for room for `additional`
/// further entries, from the allocator's answer: a node that is neither a
/// `Mapping` nor a `List` refuses whatever the answer, and one that is
/// succeeds where room was granted.
pub fn reserved(kind: ResponseValueType, additional: usize, granted: bool) -> (result: Result<
    (),
    ValueError,
>)
    ensures
        result == if kind != ResponseValueType::Mapping && kind != ResponseValueType::List {
            Err::<(), ValueError>(ValueError::InvalidCall(kind))
        } else if granted {
            Ok::<(), ValueError>(())
        } else {
            Err::<(), ValueError>(ValueError::Capacity(additional))
        },
{
    match kind {
        ResponseValueType::Mapping | ResponseValueType::List => if granted {
            Ok(())
        } else {
            Err(ValueError::Capacity(additional))
        },
        _ => Err(ValueError::InvalidCall(kind)),
    }
}

/// A fresh node of the given kind, holding that kind's empty value.
pub fn make_response_value(kind: ResponseValueType) -> (node: ResponseValue)
    ensures
        node@ == ResponseModel::empty(kind),
{
    let node = match kind {
        ResponseValueType::Mapping => ResponseValue::Mapping(Vec::new()),
        ResponseValueType::List => ResponseValue::List(Vec::new()),
        ResponseValueType::String => ResponseValue::String(Vec::new()),
        ResponseValueType::Null => ResponseValue::Null,
        ResponseValueType::Boolean => ResponseValue::Boolean(false),
        ResponseValueType::Int => ResponseValue::Int(0),
        ResponseValueType::Float => ResponseValue::Float(String::from_str("0.0")),
        ResponseValueType::EnumValue => ResponseValue::EnumValue(Vec::new()),
        ResponseValueType::ID => ResponseValue::ID(Vec::new()),
        ResponseValueType::Scalar => ResponseValue::Scalar(Box::new(ResponseValue::Null)),
    };
    proof {
        match kind {
            ResponseValueType::Mapping => { assert(node@->Mapping_0 =~= Seq::empty()); },
            ResponseValueType::List => { assert(node@->List_0 =~= Seq::empty()); },
            ResponseValueType::Scalar => {
                reveal_with_fuel(ResponseValue::model, 2);
            },
            _ => {},
        }
    }
    node
}

impl ResponseValue {
    /// Asks for room for `additional` further entries of a `Mapping` or a
    /// `List`. The node keeps its value whatever the answer. Whether room can
    /// be had is for the allocator to say, and `reserved` says what is made of
    /// its answer.
    pub fn reserve(&mut self, additional: usize) -> (result: Result<(), ValueError>)
        ensures
            final(self)@ == old(self)@,
            !old(self)@.is_container() ==> result == Err::<(), ValueError>(
                ValueError::InvalidCall(old(self)@.kind()),
            ),
            old(self)@.is_container() ==> result is Ok || result == Err::<(), ValueError>(
                ValueError::Capacity(additional),
            ),
    {
        let kind = self.get_type();
        let granted = match self {
            ResponseValue::Mapping(entries) => entries.try_reserve(additional).is_ok(),
            ResponseValue::List(items) => items.try_reserve(additional).is_ok(),
            _ => false,
        };
        assert(self@ =~~= old(self)@);
        reserved(kind, additional, granted)
    }

    /// Appends an item to a `List`; any other node refuses and stays as it is.
    pub fn push_list_entry(&mut self, value: ResponseValue) -> (result: Result<(), ValueError>)
        ensures
            match old(self)@ {
                ResponseModel::List(items) => result is Ok && final(self)@ == ResponseModel::List(
                    items.push(value@),
                ),
                _ => result == Err::<(), ValueError>(ValueError::InvalidCall(old(self)@.kind()))
                    && final(self)@ == old(self)@,
            },
    {
        let kind = self.get_type();
        match self {
            ResponseValue::List(items) => {
                items.push(value);
            },
            _ => { return Err(ValueError::InvalidCall(kind)); },
        }
        assert(self@->List_0 =~= old(self)@->List_0.push(value@));
        Ok(())
    }

    /// Appends a member to a `Mapping`, its name kept as the bytes of `name`;
    /// any other node refuses and stays as it is. A name that is already
    /// there is appended again.
    pub fn push_map_entry(&mut self, name: &str, value: ResponseValue) -> (result: Result<
        (),
        ValueError,
    >)
        ensures
            match old(self)@ {
                ResponseModel::Mapping(entries) => result is Ok && final(self)@
                    == ResponseModel::Mapping(entries.push((name.spec_bytes(), value@))),
                _ => result == Err::<(), ValueError>(ValueError::InvalidCall(old(self)@.kind()))
                    && final(self)@ == old(self)@,
            },
    {
        let kind = self.get_type();
        match self {
            ResponseValue::Mapping(entries) => {
                entries.push(ResponseMapEntry { name: name.as_bytes_vec(), value });
            },
            _ => { return Err(ValueError::InvalidCall(kind)); },
        }
        assert(self@->Mapping_0 =~= old(self)@->Mapping_0.push((name.spec_bytes(), value@)));
        Ok(())
    }

    /// Replaces the string of a `String`, `EnumValue` or `ID` node by the
    /// bytes of `value`; any other node refuses and stays as it is.
    pub fn set_string(&mut self, value: &str) -> (result: Result<(), ValueError>)
        ensures
            old(self)@.is_text() ==> result is Ok && final(self)@ == old(self)@.with_text(
                value.spec_bytes(),
            ),
            !old(self)@.is_text() ==> result == Err::<(), ValueError>(
                ValueError::InvalidCall(old(self)@.kind()),
            ) && final(self)@ == old(self)@,
    {
        let kind = self.get_type();
        match self {
            ResponseValue::String(bytes) => { *bytes = value.as_bytes_vec(); },
            ResponseValue::EnumValue(bytes) => { *bytes = value.as_bytes_vec(); },
            ResponseValue::ID(bytes) => { *bytes = value.as_bytes_vec(); },
            _ => { return Err(ValueError::InvalidCall(kind)); },
        }
        Ok(())
    }

    /// Replaces the truth value of a `Boolean` node; any other node refuses.
    pub fn set_bool(&mut self, value: bool) -> (result: Result<(), ValueError>)
        ensures
            old(self)@ is Boolean ==> result is Ok && final(self)@ == ResponseModel::Boolean(
                value,
            ),
            !(old(self)@ is Boolean) ==> result == Err::<(), ValueError>(
                ValueError::InvalidCall(old(self)@.kind()),
            ) && final(self)@ == old(self)@,
    {
        let kind = self.get_type();
        match self {
            ResponseValue::Boolean(held) => { *held = value; },
            _ => { return Err(ValueError::InvalidCall(kind)); },
        }
        Ok(())
    }

    /// Replaces the number of an `Int` node; any other node refuses.
    pub fn set_int(&mut self, value: i64) -> (result: Result<(), ValueError>)
        ensures
            old(self)@ is Int ==> result is Ok && final(self)@ == ResponseModel::Int(value),
            !(old(self)@ is Int) ==> result == Err::<(), ValueError>(
                ValueError::InvalidCall(old(self)@.kind()),
            ) && final(self)@ == old(self)@,
    {
        let kind = self.get_type();
        match self {
            ResponseValue::Int(held) => { *held = value; },
            _ => { return Err(ValueError::InvalidCall(kind)); },
        }
        Ok(())
    }

    /// Replaces the number of a `Float` node, given as decimal text; any
    /// other node refuses.
    pub fn set_float(&mut self, value: &str) -> (result: Result<(), ValueError>)
        ensures
            old(self)@ is Float ==> result is Ok && final(self)@ == ResponseModel::Float(value@),
            !(old(self)@ is Float) ==> result == Err::<(), ValueError>(
                ValueError::InvalidCall(old(self)@.kind()),
            ) && final(self)@ == old(self)@,
    {
        let kind = self.get_type();
        match self {
            ResponseValue::Float(held) => { *held = String::from_str(value); },
            _ => { return Err(ValueError::InvalidCall(kind)); },
        }
        Ok(())
    }

    /// Hands over the members of a `Mapping`, in order.
    pub fn release_map(self) -> (result: Result<Vec<ResponseMapEntry>, ValueError>)
        ensures
            match self@ {
                ResponseModel::Mapping(entries) => result is Ok && entries_model(
                    result->Ok_0@,
                ) == entries,
                _ => result == Err::<Vec<ResponseMapEntry>, ValueError>(
                    ValueError::InvalidCall(self@.kind()),
                ),
            },
    {
        match self {
            ResponseValue::Mapping(entries) => {
                proof {
                    lemma_mapping_model(self);
                }
                Ok(entries)
            },
            other => Err(ValueError::InvalidCall(other.get_type())),
        }
    }

    /// Hands over the items of a `List`, in order.
    pub fn release_list(self) -> (result: Result<Vec<ResponseValue>, ValueError>)
        ensures
            match self@ {
                ResponseModel::List(items) => result is Ok && items_model(result->Ok_0@) == items,
                _ => result == Err::<Vec<ResponseValue>, ValueError>(
                    ValueError::InvalidCall(self@.kind()),
                ),
            },
    {
        match self {
            ResponseValue::List(items) => {
                proof {
                    lemma_list_model(self);
                }
                Ok(items)
            },
            other => Err(ValueError::InvalidCall(other.get_type())),
        }
    }

    /// Hands over the bytes of a `String`, `EnumValue` or `ID` node.
    pub fn release_string(self) -> (result: Result<Vec<u8>, ValueError>)
        ensures
            self@.is_text() ==> result is Ok && result->Ok_0@ == self@.text(),
            !self@.is_text() ==> result == Err::<Vec<u8>, ValueError>(
                ValueError::InvalidCall(self@.kind()),
            ),
    {
        match self {
            ResponseValue::String(bytes) => Ok(bytes),
            ResponseValue::EnumValue(bytes) => Ok(bytes),
            ResponseValue::ID(bytes) => Ok(bytes),
            other => Err(ValueError::InvalidCall(other.get_type())),
        }
    }

    /// Hands over the one value that a `Scalar` node wraps.
    pub fn release_scalar(self) -> (result: Result<ResponseValue, ValueError>)
        ensures
            match self@ {
                ResponseModel::Scalar(inner) => result is Ok && result->Ok_0@ == *inner,
                _ => result == Err::<ResponseValue, ValueError>(
                    ValueError::InvalidCall(self@.kind()),
                ),
            },
    {
        match self {
            ResponseValue::Scalar(inner) => Ok(*inner),
            other => Err(ValueError::InvalidCall(other.get_type())),
        }
    }

    /// The truth value of a `Boolean` node.
    pub fn get_bool(&self) -> (result: Result<bool, ValueError>)
        ensures
            match self@ {
                ResponseModel::Boolean(value) => result == Ok::<bool, ValueError>(value),
                _ => result == Err::<bool, ValueError>(ValueError::InvalidCall(self@.kind())),
            },
    {
        match self {
            ResponseValue::Boolean(value) => Ok(*value),
            _ => Err(ValueError::InvalidCall(self.get_type())),
        }
    }

    /// The number of an `Int` node.
    pub fn get_int(&self) -> (result: Result<i64, ValueError>)
        ensures
            match self@ {
                ResponseModel::Int(value) => result == Ok::<i64, ValueError>(value),
                _ => result == Err::<i64, ValueError>(ValueError::InvalidCall(self@.kind())),
            },
    {
        match self {
            ResponseValue::Int(value) => Ok(*value),
            _ => Err(ValueError::InvalidCall(self.get_type())),
        }
    }

    /// The number of a `Float` node, as decimal text.
    pub fn get_float(&self) -> (result: Result<String, ValueError>)
        ensures
            match self@ {
                ResponseModel::Float(text) => result is Ok && result->Ok_0@ == text,
                _ => result == Err::<String, ValueError>(ValueError::InvalidCall(self@.kind())),
            },
    {
        match self {
            ResponseValue::Float(text) => Ok(text.clone()),
            _ => Err(ValueError::InvalidCall(self.get_type())),
        }
    }
}

} // verus!
