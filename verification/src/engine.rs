//! A tree as the engine handed it over, node by node, where any hand-over
//! may have failed; and what is kept of it.

use vstd::prelude::*;
use crate::json::JsonValue;
use crate::marshal::dynamic_of;
use crate::value::{
    entries_model, items_model, lemma_list_model, lemma_mapping_model, ResponseMapEntry,
    ResponseModel, ResponseValue,
};

verus! {

/// A member of a mapping as the engine handed it over: its name and its
/// value, each where there was one.
#[derive(Debug, PartialEq, Eq)]
pub struct EngineMember {
    pub name: Option<Vec<u8>>,
    pub value: Option<EngineNode>,
}

/// A node as the engine handed it over. `Failed` stands for a node whose
/// payload the engine did not hand over, with the text of the failure. A
/// `Float` holds the decimal text of its number, and nothing where the number
/// is not finite.
#[derive(Debug, PartialEq, Eq)]
pub enum EngineNode {
    Failed(String),
    Null,
    Boolean(bool),
    Int(i64),
    Float(Option<String>),
    String(Vec<u8>),
    EnumValue(Vec<u8>),
    ID(Vec<u8>),
    List(Vec<EngineNode>),
    Mapping(Vec<EngineMember>),
    Scalar(Box<EngineNode>),
}

/// The mathematical value of a node that was handed over.
pub enum EngineModel {
    Failed(Seq<char>),
    Null,
    Boolean(bool),
    Int(i64),
    Float(Option<Seq<char>>),
    String(Seq<u8>),
    EnumValue(Seq<u8>),
    ID(Seq<u8>),
    List(Seq<EngineModel>),
    Mapping(Seq<(Option<Seq<u8>>, Option<EngineModel>)>),
    Scalar(Box<EngineModel>),
}

/// The value of a name that may be missing.
pub open spec fn name_model(name: Option<Vec<u8>>) -> Option<Seq<u8>> {
    match name {
        Some(bytes) => Some(bytes@),
        None => None,
    }
}

impl EngineNode {
    /// The mathematical value of this tree.
    pub open spec fn model(&self) -> EngineModel
        decreases self,
    {
        match self {
            EngineNode::Failed(text) => EngineModel::Failed(text@),
            EngineNode::Null => EngineModel::Null,
            EngineNode::Boolean(b) => EngineModel::Boolean(*b),
            EngineNode::Int(n) => EngineModel::Int(*n),
            EngineNode::Float(Some(text)) => EngineModel::Float(Some(text@)),
            EngineNode::Float(None) => EngineModel::Float(None),
            EngineNode::String(bytes) => EngineModel::String(bytes@),
            EngineNode::EnumValue(bytes) => EngineModel::EnumValue(bytes@),
            EngineNode::ID(bytes) => EngineModel::ID(bytes@),
            EngineNode::List(items) => EngineModel::List(
                Seq::new(
                    items.len() as nat,
                    |i: int|
                        if 0 <= i < items.len() {
                            items[i].model()
                        } else {
                            EngineModel::Null
                        },
                ),
            ),
            EngineNode::Mapping(members) => EngineModel::Mapping(
                Seq::new(
                    members.len() as nat,
                    |i: int|
                        if 0 <= i < members.len() {
                            (
                                name_model(members[i].name),
                                match members[i].value {
                                    Some(value) => Some(value.model()),
                                    None => None,
                                },
                            )
                        } else {
                            (None, None)
                        },
                ),
            ),
            EngineNode::Scalar(inner) => EngineModel::Scalar(Box::new((**inner).model())),
        }
    }
}

impl View for EngineNode {
    type V = EngineModel;

    open spec fn view(&self) -> EngineModel {
        self.model()
    }
}

/// The values of a run of nodes, in order.
pub open spec fn nodes_model(items: Seq<EngineNode>) -> Seq<EngineModel> {
    Seq::new(items.len(), |i: int| items[i].model())
}

/// The names and values of a run of members, in order.
pub open spec fn members_model(members: Seq<EngineMember>) -> Seq<
    (Option<Seq<u8>>, Option<EngineModel>),
> {
    Seq::new(members.len(), |i: int| (name_model(members[i].name), value_model(members[i].value)))
}

/// The value of a node that may be missing.
pub open spec fn value_model(value: Option<EngineNode>) -> Option<EngineModel> {
    match value {
        Some(node) => Some(node.model()),
        None => None,
    }
}

/// Whether a member is kept: it has a name, and a value that did not fail.
pub open spec fn member_kept(member: (Option<Seq<u8>>, Option<EngineModel>)) -> bool {
    member.0 is Some && member.1 is Some && !(member.1->Some_0 is Failed)
}

/// The typed tree that is kept of what was handed over. An item of a list
/// that failed is left out, as is a member of a mapping that failed or came
/// without a name or a value; a `Scalar` whose one value failed wraps `Null`; a float
/// that is not finite is `Null`. A failed node itself has no tree, and `Null`
/// stands for it here.
pub open spec fn kept(node: EngineModel) -> ResponseModel
    decreases node,
{
    match node {
        EngineModel::Failed(_) => ResponseModel::Null,
        EngineModel::Null => ResponseModel::Null,
        EngineModel::Boolean(b) => ResponseModel::Boolean(b),
        EngineModel::Int(n) => ResponseModel::Int(n),
        EngineModel::Float(Some(text)) => ResponseModel::Float(text),
        EngineModel::Float(None) => ResponseModel::Null,
        EngineModel::String(bytes) => ResponseModel::String(bytes),
        EngineModel::EnumValue(bytes) => ResponseModel::EnumValue(bytes),
        EngineModel::ID(bytes) => ResponseModel::ID(bytes),
        EngineModel::List(items) => ResponseModel::List(kept_items(items)),
        EngineModel::Mapping(members) => ResponseModel::Mapping(kept_members(members)),
        EngineModel::Scalar(inner) => ResponseModel::Scalar(Box::new(kept(*inner))),
    }
}

/// What is kept of the items of a list, in order: all that did not fail.
pub open spec fn kept_items(items: Seq<EngineModel>) -> Seq<ResponseModel>
    decreases items,
{
    if items.len() == 0 {
        Seq::empty()
    } else if items.last() is Failed {
        kept_items(items.drop_last())
    } else {
        kept_items(items.drop_last()).push(kept(items.last()))
    }
}

/// What is kept of the members of a mapping, in order: all that have a name
/// and a value that did not fail.
pub open spec fn kept_members(members: Seq<(Option<Seq<u8>>, Option<EngineModel>)>) -> Seq<
    (Seq<u8>, ResponseModel),
>
    decreases members,
{
    if members.len() == 0 {
        Seq::empty()
    } else if !member_kept(members.last()) {
        kept_members(members.drop_last())
    } else {
        kept_members(members.drop_last()).push(
            (members.last().0->Some_0, kept(members.last().1->Some_0)),
        )
    }
}

/// An item of a list is smaller than the list.
proof fn lemma_node_decreases(node: EngineModel, index: int)
    requires
        node is List,
        0 <= index < node->List_0.len(),
    ensures
        decreases_to!(node => node->List_0[index]),
{
    match node {
        EngineModel::List(items) => {
            assert(decreases_to!(node => items));
            assert(decreases_to!(items => items[index]));
        },
        _ => {},
    }
}

/// The value of a member of a mapping is smaller than the mapping.
proof fn lemma_member_decreases(node: EngineModel, index: int)
    requires
        node is Mapping,
        0 <= index < node->Mapping_0.len(),
        node->Mapping_0[index].1 is Some,
    ensures
        decreases_to!(node => node->Mapping_0[index].1->Some_0),
{
    match node {
        EngineModel::Mapping(members) => {
            assert(decreases_to!(node => members));
            assert(decreases_to!(members => members[index]));
            assert(decreases_to!(members[index] => members[index].1));
            assert(decreases_to!(members[index].1 => members[index].1->Some_0));
        },
        _ => {},
    }
}

/// The typed tree that is kept of what was handed over: see `kept`. A
/// failed node gives the text of its failure and no tree; every other node
/// gives a tree.
pub fn keep(node: EngineNode) -> (result: Result<ResponseValue, String>)
    ensures
        match result {
            Ok(tree) => !(node@ is Failed) && tree@ == kept(node@),
            Err(text) => node@ == EngineModel::Failed(text@),
        },
    decreases node@,
{
    match node {
        EngineNode::Failed(text) => Err(text),
        EngineNode::Null => Ok(ResponseValue::Null),
        EngineNode::Boolean(b) => Ok(ResponseValue::Boolean(b)),
        EngineNode::Int(n) => Ok(ResponseValue::Int(n)),
        EngineNode::Float(Some(text)) => Ok(ResponseValue::Float(text)),
        EngineNode::Float(None) => Ok(ResponseValue::Null),
        EngineNode::String(bytes) => Ok(ResponseValue::String(bytes)),
        EngineNode::EnumValue(bytes) => Ok(ResponseValue::EnumValue(bytes)),
        EngineNode::ID(bytes) => Ok(ResponseValue::ID(bytes)),
        EngineNode::List(items) => {
            let ghost all = nodes_model(items@);
            assert(node@->List_0 =~= all);
            let mut children: Vec<ResponseValue> = Vec::new();
            assert(items_model(children@) =~= kept_items(all.take(0)));
            for item in it: items.into_iter()
                invariant
                    it.seq() == items@,
                    all == nodes_model(items@),
                    node@ == EngineModel::List(all),
                    items_model(children@) == kept_items(all.take(it.index())),
            {
                let ghost index = it.index();
                assert(all.take(index + 1).drop_last() =~= all.take(index));
                assert(all.take(index + 1).last() == item@);
                proof {
                    lemma_node_decreases(node@, index);
                }
                let ghost before = items_model(children@);
                match keep(item) {
                    Ok(child) => {
                        children.push(child);
                        assert(items_model(children@) =~= before.push(child@));
                    },
                    Err(_) => {},
                }
            }
            assert(all.take(items@.len() as int) =~= all);
            let tree = ResponseValue::List(children);
            proof {
                lemma_list_model(tree);
            }
            Ok(tree)
        },
        EngineNode::Mapping(members) => {
            let ghost all = members_model(members@);
            assert(node@->Mapping_0 =~= all);
            let mut entries: Vec<ResponseMapEntry> = Vec::new();
            assert(entries_model(entries@) =~= kept_members(all.take(0)));
            for member in it: members.into_iter()
                invariant
                    it.seq() == members@,
                    all == members_model(members@),
                    node@ == EngineModel::Mapping(all),
                    entries_model(entries@) == kept_members(all.take(it.index())),
            {
                let ghost index = it.index();
                assert(all.take(index + 1).drop_last() =~= all.take(index));
                assert(all.take(index + 1).last() == (
                    name_model(member.name),
                    value_model(member.value),
                ));
                let ghost before = entries_model(entries@);
                let EngineMember { name, value } = member;
                match (name, value) {
                    (Some(name), Some(value)) => {
                        proof {
                            lemma_member_decreases(node@, index);
                        }
                        match keep(value) {
                            Ok(child) => {
                                entries.push(ResponseMapEntry { name, value: child });
                                assert(entries_model(entries@) =~= before.push((name@, child@)));
                            },
                            Err(_) => {},
                        }
                    },
                    _ => {},
                }
            }
            assert(all.take(members@.len() as int) =~= all);
            let tree = ResponseValue::Mapping(entries);
            proof {
                lemma_mapping_model(tree);
            }
            Ok(tree)
        },
        EngineNode::Scalar(inner) => {
            let wrapped = match keep(*inner) {
                Ok(tree) => tree,
                Err(_) => ResponseValue::Null,
            };
            let tree = ResponseValue::Scalar(Box::new(wrapped));
            proof {
                reveal_with_fuel(ResponseValue::model, 2);
            }
            Ok(tree)
        },
    }
}

/// Converts what the engine handed over to the dynamic value. A node that
/// failed at the root fails the conversion with the text of its failure.
/// Below the root a failure is not fatal: what is kept of the tree converts
/// as a typed tree does.
pub fn from_engine(node: EngineNode) -> (result: Result<JsonValue, String>)
    ensures
        match result {
            Ok(value) => !(node@ is Failed) && value@ == dynamic_of(kept(node@))
                && value@.well_formed(),
            Err(text) => node@ == EngineModel::Failed(text@),
        },
{
    match keep(node) {
        Ok(tree) => match JsonValue::try_from(tree) {
            Ok(value) => Ok(value),
            Err(error) => Err(error.message()),
        },
        Err(text) => Err(text),
    }
}

} // verus!
