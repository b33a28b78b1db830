//! JSON text of the dynamic value, read and written by `serde_json`.

use vstd::prelude::*;
use vstd::string::*;
use crate::json::{
    array_model, distinct_names, gathered, lemma_array_model, lemma_gathered_distinct,
    lemma_object_model, object_model, JsonModel, JsonNumber, JsonValue, NumberModel,
};

verus! {

/// Trusted: `serde_json::Value`, the tree that `serde_json` reads JSON text
/// into and writes it from. Nothing inside it is seen here.
#[verifier::external_type_specification]
#[verifier::external_body]
pub struct ExJsonTree(serde_json::Value);

/// What a `serde_json::Value` holds, as a dynamic value: its members in the
/// order in which the tree walks them, a float as the text that
/// `serde_json` prints for it.
pub uninterp spec fn tree_model(tree: serde_json::Value) -> JsonModel;

/// What `serde_json::from_str` makes of a text: the value read, or the text
/// of its error.
pub uninterp spec fn parsed_text(text: Seq<char>) -> Result<JsonModel, Seq<char>>;

/// What `serde_json::to_string` makes of a tree that holds this value: the
/// text written, or the text of its error.
pub uninterp spec fn printed_text(value: JsonModel) -> Result<Seq<char>, Seq<char>>;

/// What `serde_json::from_str` makes of a text that is read as one number,
/// where it is one.
pub uninterp spec fn number_of_text(text: Seq<char>) -> Option<NumberModel>;

/// A `serde_json::Value` taken apart one level: its own kind and payload,
/// with the children still as trees.
pub enum TreeParts {
    Null,
    Bool(bool),
    Number(JsonNumber),
    String(String),
    Array(Vec<serde_json::Value>),
    Object(Vec<(String, serde_json::Value)>),
}

/// The values of a run of trees, in order.
pub open spec fn children_model(children: Seq<serde_json::Value>) -> Seq<JsonModel> {
    Seq::new(children.len(), |i: int| tree_model(children[i]))
}

/// The names and values of a run of named trees, in order.
pub open spec fn fields_model(fields: Seq<(String, serde_json::Value)>) -> Seq<
    (Seq<char>, JsonModel),
> {
    Seq::new(fields.len(), |i: int| (fields[i].0@, tree_model(fields[i].1)))
}

impl TreeParts {
    /// The value of the tree that was taken apart.
    pub open spec fn model(self) -> JsonModel {
        match self {
            TreeParts::Null => JsonModel::Null,
            TreeParts::Bool(b) => JsonModel::Bool(b),
            TreeParts::Number(n) => JsonModel::Number(n@),
            TreeParts::String(s) => JsonModel::String(s@),
            TreeParts::Array(children) => JsonModel::Array(children_model(children@)),
            TreeParts::Object(fields) => JsonModel::Object(fields_model(fields@)),
        }
    }

    /// The value of the tree that the parts are put together to, where there
    /// is one. An integer takes its one form, a float is what its text reads
    /// as, and the members of an object are gathered by name.
    pub open spec fn rebuilt(self) -> Option<JsonModel> {
        match self {
            TreeParts::Number(JsonNumber::Float(text)) => match number_of_text(text@) {
                Some(n) => Some(JsonModel::Number(n)),
                None => None,
            },
            TreeParts::Number(JsonNumber::NegInt(i)) => Some(
                JsonModel::Number(NumberModel::from_i64(i)),
            ),
            TreeParts::Object(fields) => Some(JsonModel::Object(gathered(fields_model(fields@)))),
            _ => Some(self.model()),
        }
    }
}

/// Trusted: `serde_json::from_str`, reading a whole tree. The contract
/// names what it gives, the error as its text.
#[verifier::external_body]
fn read_tree(json: &str) -> (tree: Result<serde_json::Value, String>)
    ensures
        match tree {
            Ok(tree) => parsed_text(json@) == Ok::<JsonModel, Seq<char>>(tree_model(tree)),
            Err(message) => parsed_text(json@) == Err::<JsonModel, Seq<char>>(message@),
        },
{
    serde_json::from_str::<serde_json::Value>(json).map_err(|error| error.to_string())
}

/// Trusted: `serde_json::to_string` on a tree. The contract names what it
/// gives, the error as its text.
#[verifier::external_body]
fn write_tree(tree: &serde_json::Value) -> (text: Result<String, String>)
    ensures
        match text {
            Ok(text) => printed_text(tree_model(*tree)) == Ok::<Seq<char>, Seq<char>>(text@),
            Err(message) => printed_text(tree_model(*tree)) == Err::<Seq<char>, Seq<char>>(
                message@,
            ),
        },
{
    serde_json::to_string(tree).map_err(|error| error.to_string())
}

/// Trusted: the variants of `serde_json::Value`, told apart. A number is an
/// integer from zero up where `as_u64` gives it, one below zero where only
/// `as_i64` does, and else a float, held as the text that `serde_json` prints
/// for it. The members of an object come in the order in which its map walks
/// them, and a map holds no name twice.
#[verifier::external_body]
fn take_apart(tree: serde_json::Value) -> (parts: TreeParts)
    ensures
        parts.model() == tree_model(tree),
        parts matches TreeParts::Number(n) ==> n@.well_formed(),
        parts matches TreeParts::Object(fields) ==> distinct_names(fields_model(fields@)),
{
    match tree {
        serde_json::Value::Null => TreeParts::Null,
        serde_json::Value::Bool(b) => TreeParts::Bool(b),
        serde_json::Value::Number(n) => TreeParts::Number(
            match (n.as_u64(), n.as_i64()) {
                (Some(u), _) => JsonNumber::PosInt(u),
                (None, Some(i)) => JsonNumber::NegInt(i),
                (None, None) => JsonNumber::Float(n.to_string()),
            },
        ),
        serde_json::Value::String(s) => TreeParts::String(s),
        serde_json::Value::Array(children) => TreeParts::Array(children),
        serde_json::Value::Object(fields) => TreeParts::Object(fields.into_iter().collect()),
    }
}

/// Trusted: the variants of `serde_json::Value`, built. An integer goes
/// through `Value::from`, which holds one from zero up as unsigned; a float
/// is read from its text by `serde_json::from_str`, which may refuse it; the
/// members of an object are collected into its map, which keeps the first
/// place of a name and its last value.
#[verifier::external_body]
fn put_together(parts: TreeParts) -> (tree: Option<serde_json::Value>)
    ensures
        match tree {
            Some(tree) => parts.rebuilt() == Some(tree_model(tree)),
            None => parts.rebuilt() is None,
        },
        parts matches TreeParts::Number(JsonNumber::Float(text)) ==> (tree is Some
            <==> number_of_text(text@) is Some),
{
    match parts {
        TreeParts::Null => Some(serde_json::Value::Null),
        TreeParts::Bool(b) => Some(serde_json::Value::Bool(b)),
        TreeParts::Number(JsonNumber::PosInt(u)) => Some(serde_json::Value::from(u)),
        TreeParts::Number(JsonNumber::NegInt(i)) => Some(serde_json::Value::from(i)),
        TreeParts::Number(JsonNumber::Float(text)) => serde_json::from_str::<serde_json::Number>(
            &text,
        ).ok().map(serde_json::Value::Number),
        TreeParts::String(s) => Some(serde_json::Value::String(s)),
        TreeParts::Array(children) => Some(serde_json::Value::Array(children)),
        TreeParts::Object(fields) => Some(serde_json::Value::Object(fields.into_iter().collect())),
    }
}

/// A child of an array is smaller than the array.
proof fn lemma_child_decreases(value: JsonModel, index: int)
    requires
        value is Array,
        0 <= index < value->Array_0.len(),
    ensures
        decreases_to!(value => value->Array_0[index]),
{
    match value {
        JsonModel::Array(items) => {
            assert(decreases_to!(value => items));
            assert(decreases_to!(items => items[index]));
        },
        _ => {},
    }
}

/// The value of a member of an object is smaller than the object.
proof fn lemma_field_decreases(value: JsonModel, index: int)
    requires
        value is Object,
        0 <= index < value->Object_0.len(),
    ensures
        decreases_to!(value => value->Object_0[index].1),
{
    match value {
        JsonModel::Object(members) => {
            assert(decreases_to!(value => members));
            assert(decreases_to!(members => members[index]));
            assert(decreases_to!(members[index] => members[index].1));
        },
        _ => {},
    }
}

/// The dynamic value that a tree holds. It is well formed: a map holds no
/// name twice, and an integer comes in its one form.
pub fn from_tree(tree: serde_json::Value) -> (value: JsonValue)
    ensures
        value@ == tree_model(tree),
        value@.well_formed(),
    decreases tree_model(tree),
{
    match take_apart(tree) {
        TreeParts::Null => JsonValue::Null,
        TreeParts::Bool(b) => JsonValue::Bool(b),
        TreeParts::Number(n) => JsonValue::Number(n),
        TreeParts::String(s) => JsonValue::String(s),
        TreeParts::Array(children) => {
            let ghost all = children_model(children@);
            let mut items: Vec<JsonValue> = Vec::new();
            for child in it: children.into_iter()
                invariant
                    it.seq() == children@,
                    all == children_model(children@),
                    tree_model(tree) == JsonModel::Array(all),
                    array_model(items@) =~= all.take(it.index()),
                    forall|k: int|
                        0 <= k < items.len() ==> (#[trigger] array_model(items@)[k]).well_formed(),
            {
                proof {
                    lemma_child_decreases(tree_model(tree), it.index());
                }
                let ghost before = array_model(items@);
                let item = from_tree(child);
                items.push(item);
                assert(array_model(items@) =~= before.push(item@));
            }
            assert(all.take(children@.len() as int) =~= all);
            let value = JsonValue::Array(items);
            proof {
                lemma_array_model(value);
            }
            value
        },
        TreeParts::Object(fields) => {
            let ghost all = fields_model(fields@);
            let mut members: Vec<(String, JsonValue)> = Vec::new();
            for field in it: fields.into_iter()
                invariant
                    it.seq() == fields@,
                    all == fields_model(fields@),
                    tree_model(tree) == JsonModel::Object(all),
                    distinct_names(all),
                    object_model(members@) =~= all.take(it.index()),
                    forall|k: int|
                        0 <= k < members.len() ==> (#[trigger] object_model(
                            members@,
                        )[k]).1.well_formed(),
            {
                proof {
                    lemma_field_decreases(tree_model(tree), it.index());
                }
                let ghost before = object_model(members@);
                let (name, child) = field;
                let member = from_tree(child);
                members.push((name, member));
                assert(object_model(members@) =~= before.push((name@, member@)));
            }
            assert(all.take(fields@.len() as int) =~= all);
            let value = JsonValue::Object(members);
            proof {
                lemma_object_model(value);
            }
            value
        },
    }
}

/// The value of the tree that a dynamic value is written from, where there
/// is one: see `TreeParts::rebuilt`. There is none where a float in it is
/// not the text of a number.
pub open spec fn settled(value: JsonModel) -> Option<JsonModel>
    decreases value,
{
    match value {
        JsonModel::Number(NumberModel::Float(text)) => match number_of_text(text) {
            Some(n) => Some(JsonModel::Number(n)),
            None => None,
        },
        JsonModel::Number(NumberModel::NegInt(i)) => Some(
            JsonModel::Number(NumberModel::from_i64(i)),
        ),
        JsonModel::Array(items) => match settled_items(items) {
            Some(children) => Some(JsonModel::Array(children)),
            None => None,
        },
        JsonModel::Object(members) => match settled_members(members) {
            Some(fields) => Some(JsonModel::Object(gathered(fields))),
            None => None,
        },
        _ => Some(value),
    }
}

/// The settled items, in order, where each has one.
pub open spec fn settled_items(items: Seq<JsonModel>) -> Option<Seq<JsonModel>>
    decreases items,
{
    if items.len() == 0 {
        Some(Seq::empty())
    } else {
        match settled_items(items.drop_last()) {
            None => None,
            Some(before) => match settled(items.last()) {
                None => None,
                Some(child) => Some(before.push(child)),
            },
        }
    }
}

/// The settled members, in order, where each has one.
pub open spec fn settled_members(members: Seq<(Seq<char>, JsonModel)>) -> Option<
    Seq<(Seq<char>, JsonModel)>,
>
    decreases members,
{
    if members.len() == 0 {
        Some(Seq::empty())
    } else {
        match settled_members(members.drop_last()) {
            None => None,
            Some(before) => match settled(members.last().1) {
                None => None,
                Some(child) => Some(before.push((members.last().0, child))),
            },
        }
    }
}

/// Where one of the first items has no settled value, the run has none.
pub proof fn lemma_settled_items_failure(items: Seq<JsonModel>, k: int)
    requires
        0 <= k <= items.len(),
        settled_items(items.take(k)) is None,
    ensures
        settled_items(items) is None,
    decreases items.len() - k,
{
    if k < items.len() {
        assert(items.drop_last().take(k) =~= items.take(k));
        lemma_settled_items_failure(items.drop_last(), k);
    } else {
        assert(items.take(k) =~= items);
    }
}

/// Where one of the first members has no settled value, the run has none.
pub proof fn lemma_settled_members_failure(members: Seq<(Seq<char>, JsonModel)>, k: int)
    requires
        0 <= k <= members.len(),
        settled_members(members.take(k)) is None,
    ensures
        settled_members(members) is None,
    decreases members.len() - k,
{
    if k < members.len() {
        assert(members.drop_last().take(k) =~= members.take(k));
        lemma_settled_members_failure(members.drop_last(), k);
    } else {
        assert(members.take(k) =~= members);
    }
}

/// The tree that a dynamic value is written from: each node put together
/// from its parts, the children first.
pub fn to_tree(value: JsonValue) -> (tree: Option<serde_json::Value>)
    ensures
        match tree {
            Some(tree) => settled(value@) == Some(tree_model(tree)),
            None => settled(value@) is None,
        },
    decreases value,
{
    match value {
        JsonValue::Null => put_together(TreeParts::Null),
        JsonValue::Bool(b) => put_together(TreeParts::Bool(b)),
        JsonValue::Number(n) => put_together(TreeParts::Number(n)),
        JsonValue::String(s) => put_together(TreeParts::String(s)),
        JsonValue::Array(items) => {
            let ghost all = array_model(items@);
            proof {
                lemma_array_model(value);
            }
            let mut children: Vec<serde_json::Value> = Vec::new();
            assert(children_model(children@) =~= Seq::<JsonModel>::empty());
            for item in it: items.into_iter()
                invariant
                    it.seq() == items@,
                    all == array_model(items@),
                    value == JsonValue::Array(items),
                    value@ == JsonModel::Array(all),
                    settled_items(all.take(it.index())) == Some(children_model(children@)),
            {
                let ghost index = it.index();
                assert(all.take(index + 1).drop_last() =~= all.take(index));
                assert(all.take(index + 1).last() == item@);
                assert(decreases_to!(value => items));
                assert(decreases_to!(items => items[index]));
                let ghost before = children_model(children@);
                match to_tree(item) {
                    Some(child) => {
                        children.push(child);
                        assert(children_model(children@) =~= before.push(tree_model(child)));
                    },
                    None => {
                        proof {
                            lemma_settled_items_failure(all, index + 1);
                        }
                        return None;
                    },
                }
            }
            assert(all.take(items@.len() as int) =~= all);
            put_together(TreeParts::Array(children))
        },
        JsonValue::Object(members) => {
            let ghost all = object_model(members@);
            proof {
                lemma_object_model(value);
            }
            let mut fields: Vec<(String, serde_json::Value)> = Vec::new();
            assert(fields_model(fields@) =~= Seq::<(Seq<char>, JsonModel)>::empty());
            for member in it: members.into_iter()
                invariant
                    it.seq() == members@,
                    all == object_model(members@),
                    value == JsonValue::Object(members),
                    value@ == JsonModel::Object(all),
                    settled_members(all.take(it.index())) == Some(fields_model(fields@)),
            {
                let ghost index = it.index();
                assert(all.take(index + 1).drop_last() =~= all.take(index));
                assert(all.take(index + 1).last() == (member.0@, member.1@));
                assert(decreases_to!(value => members));
                assert(decreases_to!(members => members[index]));
                assert(decreases_to!(member => member.1));
                let ghost before = fields_model(fields@);
                let (name, item) = member;
                match to_tree(item) {
                    Some(child) => {
                        fields.push((name, child));
                        assert(fields_model(fields@) =~= before.push((name@, tree_model(child))));
                    },
                    None => {
                        proof {
                            lemma_settled_members_failure(all, index + 1);
                        }
                        return None;
                    },
                }
            }
            assert(all.take(members@.len() as int) =~= all);
            put_together(TreeParts::Object(fields))
        },
    }
}

/// Whether no number in the value is a float.
pub open spec fn float_free(value: JsonModel) -> bool
    decreases value,
{
    match value {
        JsonModel::Number(n) => !(n is Float),
        JsonModel::Array(items) => forall|i: int|
            0 <= i < items.len() ==> float_free(#[trigger] items[i]),
        JsonModel::Object(members) => forall|i: int|
            0 <= i < members.len() ==> float_free((#[trigger] members[i]).1),
        _ => true,
    }
}

/// A well-formed value without floats is written from a tree that holds
/// the value itself.
pub proof fn lemma_settled_plain(value: JsonModel)
    requires
        value.well_formed(),
        float_free(value),
    ensures
        settled(value) == Some(value),
    decreases value,
{
    match value {
        JsonModel::Array(items) => {
            lemma_settled_plain_items(items);
        },
        JsonModel::Object(members) => {
            lemma_settled_plain_members(members);
            lemma_gathered_distinct(members);
        },
        _ => {},
    }
}

/// The items of an array without floats settle as they stand.
pub proof fn lemma_settled_plain_items(items: Seq<JsonModel>)
    requires
        forall|i: int| 0 <= i < items.len() ==> (#[trigger] items[i]).well_formed(),
        forall|i: int| 0 <= i < items.len() ==> float_free(#[trigger] items[i]),
    ensures
        settled_items(items) == Some(items),
    decreases items,
{
    if items.len() > 0 {
        lemma_settled_plain_items(items.drop_last());
        lemma_settled_plain(items.last());
        assert(items.drop_last().push(items.last()) =~= items);
    } else {
        assert(items =~= Seq::empty());
    }
}

/// The members of an object without floats settle as they stand.
pub proof fn lemma_settled_plain_members(members: Seq<(Seq<char>, JsonModel)>)
    requires
        forall|i: int| 0 <= i < members.len() ==> (#[trigger] members[i]).1.well_formed(),
        forall|i: int| 0 <= i < members.len() ==> float_free((#[trigger] members[i]).1),
    ensures
        settled_members(members) == Some(members),
    decreases members,
{
    if members.len() > 0 {
        let before = members.drop_last();
        assert forall|i: int| 0 <= i < before.len() implies (#[trigger] before[i]).1.well_formed()
            && float_free(before[i].1) by {
            assert(before[i] == members[i]);
        }
        lemma_settled_plain_members(before);
        lemma_settled_plain(members.last().1);
        assert(before.push(members.last()) =~= members);
    } else {
        assert(members =~= Seq::empty());
    }
}

/// The error text for a value that has no JSON text, because a float in it
/// is not the text of a number.
pub open spec fn float_error_text() -> Seq<char> {
    "Float value out of bounds"@
}

/// The error text for a float that is not the text of a number.
pub fn float_out_of_bounds() -> (message: String)
    ensures
        message@ == float_error_text(),
{
    String::from_str("Float value out of bounds")
}

/// Reads JSON text. The value is what `serde_json` reads, well formed, and
/// the error is in its words.
pub fn parse_json(json: &str) -> (result: Result<Box<JsonValue>, String>)
    ensures
        match result {
            Ok(value) => parsed_text(json@) == Ok::<JsonModel, Seq<char>>(value@)
                && value@.well_formed(),
            Err(message) => parsed_text(json@) == Err::<JsonModel, Seq<char>>(message@),
        },
{
    JsonValue::new(json)
}

impl JsonValue {
    /// Reads JSON text: see `parse_json`.
    pub fn new(json: &str) -> (result: Result<Box<JsonValue>, String>)
        ensures
            match result {
                Ok(value) => parsed_text(json@) == Ok::<JsonModel, Seq<char>>(value@)
                    && value@.well_formed(),
                Err(message) => parsed_text(json@) == Err::<JsonModel, Seq<char>>(message@),
            },
    {
        match read_tree(json) {
            Ok(tree) => Ok(Box::new(from_tree(tree))),
            Err(message) => Err(message),
        }
    }

    /// Takes the value out, leaving `Null` behind, and writes what was taken
    /// as JSON text: the text that `serde_json` writes for the tree that holds
    /// the settled value. Where a float in it is not the text of a number,
    /// there is no such tree and the error says so.
    pub fn to_json(&mut self) -> (result: Result<String, String>)
        ensures
            final(self)@ == JsonModel::Null,
            match settled(old(self)@) {
                Some(value) => match result {
                    Ok(text) => printed_text(value) == Ok::<Seq<char>, Seq<char>>(text@),
                    Err(message) => printed_text(value) == Err::<Seq<char>, Seq<char>>(message@),
                },
                None => result matches Err(message) && message@ == float_error_text(),
            },
    {
        let mut taken = JsonValue::Null;
        core::mem::swap(self, &mut taken);
        match to_tree(taken) {
            Some(tree) => write_tree(&tree),
            None => Err(float_out_of_bounds()),
        }
    }
}

} // verus!
