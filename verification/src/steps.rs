//! The conversion of a dynamic value to a typed tree as a run of node
//! operations, for a tree that is built somewhere else: each operation is
//! made on the newest node that is not yet appended, and a push appends that
//! node to the one made before it.

use vstd::prelude::*;
use vstd::string::*;
use vstd::utf8::*;
use crate::error::{
    allocate_failure, allocate_failure_text, push_item_failure, push_item_failure_text,
    push_member_failure, push_member_failure_text, reserve_failure, reserve_failure_text,
    set_failure, set_failure_text, ConversionError,
};
use crate::json::{
    array_model, lemma_array_model, lemma_object_model, object_model, JsonModel, JsonNumber,
    JsonValue, NumberModel,
};
use crate::marshal::{typed_items, typed_members, typed_of};
use crate::value::{ResponseModel, ResponseValueType};

verus! {

/// One operation on the tree that is being built.
#[derive(Debug, PartialEq, Eq)]
pub enum NodeStep {
    /// Make a fresh node of this kind.
    Make(ResponseValueType),
    SetBool(bool),
    SetInt(i64),
    /// Set a float, given as decimal text.
    SetFloat(String),
    SetString(String),
    /// Ask for room for this many entries of the newest node, which is of
    /// this kind.
    Reserve { kind: ResponseValueType, capacity: usize },
    /// Append the newest node to the list before it, at this place.
    PushListEntry { index: usize },
    /// Append the newest node to the mapping before it, under this name.
    PushMapEntry { name: String },
}

/// The mathematical value of an operation.
pub enum StepModel {
    Make(ResponseValueType),
    SetBool(bool),
    SetInt(i64),
    SetFloat(Seq<char>),
    SetString(Seq<char>),
    Reserve { kind: ResponseValueType, capacity: usize },
    PushListEntry { index: usize },
    PushMapEntry { name: Seq<char> },
}

impl View for NodeStep {
    type V = StepModel;

    open spec fn view(&self) -> StepModel {
        match self {
            NodeStep::Make(kind) => StepModel::Make(*kind),
            NodeStep::SetBool(value) => StepModel::SetBool(*value),
            NodeStep::SetInt(value) => StepModel::SetInt(*value),
            NodeStep::SetFloat(text) => StepModel::SetFloat(text@),
            NodeStep::SetString(text) => StepModel::SetString(text@),
            NodeStep::Reserve { kind, capacity } => StepModel::Reserve {
                kind: *kind,
                capacity: *capacity,
            },
            NodeStep::PushListEntry { index } => StepModel::PushListEntry { index: *index },
            NodeStep::PushMapEntry { name } => StepModel::PushMapEntry { name: name@ },
        }
    }
}

/// The values of a run of operations, in order.
pub open spec fn steps_model(steps: Seq<NodeStep>) -> Seq<StepModel> {
    Seq::new(steps.len(), |i: int| steps[i]@)
}

/// The operations that build the typed tree of a value, in order, or the
/// first number that is neither a 64-bit signed integer nor a float. A leaf
/// is made and then set. A container is made; if it has members, room for
/// exactly their number is asked next, once, and then each member in turn is
/// built and pushed.
pub open spec fn steps_of(value: JsonModel) -> Result<Seq<StepModel>, u64>
    decreases value,
{
    match value {
        JsonModel::Null => Ok(seq![StepModel::Make(ResponseValueType::Null)]),
        JsonModel::Bool(b) => Ok(
            seq![StepModel::Make(ResponseValueType::Boolean), StepModel::SetBool(b)],
        ),
        JsonModel::Number(NumberModel::Float(text)) => Ok(
            seq![StepModel::Make(ResponseValueType::Float), StepModel::SetFloat(text)],
        ),
        JsonModel::Number(n) => match n.as_i64() {
            Some(i) => Ok(seq![StepModel::Make(ResponseValueType::Int), StepModel::SetInt(i)]),
            None => Err(n->PosInt_0),
        },
        JsonModel::String(s) => Ok(
            seq![StepModel::Make(ResponseValueType::String), StepModel::SetString(s)],
        ),
        JsonModel::Array(items) => if items.len() == 0 {
            Ok(seq![StepModel::Make(ResponseValueType::List)])
        } else {
            match item_steps(items) {
                Ok(rest) => Ok(list_head(items.len()) + rest),
                Err(n) => Err(n),
            }
        },
        JsonModel::Object(members) => if members.len() == 0 {
            Ok(seq![StepModel::Make(ResponseValueType::Mapping)])
        } else {
            match member_steps(members) {
                Ok(rest) => Ok(mapping_head(members.len()) + rest),
                Err(n) => Err(n),
            }
        },
    }
}

/// The first operations on a list of this many items: it is made, and room
/// for its items is asked.
pub open spec fn list_head(count: nat) -> Seq<StepModel> {
    seq![
        StepModel::Make(ResponseValueType::List),
        StepModel::Reserve { kind: ResponseValueType::List, capacity: count as usize },
    ]
}

/// The first operations on a mapping of this many members: it is made, and
/// room for its members is asked.
pub open spec fn mapping_head(count: nat) -> Seq<StepModel> {
    seq![
        StepModel::Make(ResponseValueType::Mapping),
        StepModel::Reserve { kind: ResponseValueType::Mapping, capacity: count as usize },
    ]
}

/// The operations for the items of a list: each item is built and then
/// pushed at its place.
pub open spec fn item_steps(items: Seq<JsonModel>) -> Result<Seq<StepModel>, u64>
    decreases items,
{
    if items.len() == 0 {
        Ok(Seq::empty())
    } else {
        match item_steps(items.drop_last()) {
            Err(n) => Err(n),
            Ok(before) => match steps_of(items.last()) {
                Err(n) => Err(n),
                Ok(child) => Ok(
                    before + child + seq![
                        StepModel::PushListEntry { index: (items.len() - 1) as usize },
                    ],
                ),
            },
        }
    }
}

/// The operations for the members of a mapping: the value of each member is
/// built and then pushed under the member's name.
pub open spec fn member_steps(members: Seq<(Seq<char>, JsonModel)>) -> Result<Seq<StepModel>, u64>
    decreases members,
{
    if members.len() == 0 {
        Ok(Seq::empty())
    } else {
        match member_steps(members.drop_last()) {
            Err(n) => Err(n),
            Ok(before) => match steps_of(members.last().1) {
                Err(n) => Err(n),
                Ok(child) => Ok(
                    before + child + seq![StepModel::PushMapEntry { name: members.last().0 }],
                ),
            },
        }
    }
}

/// A failure among the first items is the failure of the whole run.
pub proof fn lemma_item_steps_failure(items: Seq<JsonModel>, k: int)
    requires
        0 <= k <= items.len(),
        item_steps(items.take(k)) is Err,
    ensures
        item_steps(items) == item_steps(items.take(k)),
    decreases items.len() - k,
{
    if k < items.len() {
        assert(items.drop_last().take(k) =~= items.take(k));
        lemma_item_steps_failure(items.drop_last(), k);
    } else {
        assert(items.take(k) =~= items);
    }
}

/// A failure among the first members is the failure of the whole run.
pub proof fn lemma_member_steps_failure(members: Seq<(Seq<char>, JsonModel)>, k: int)
    requires
        0 <= k <= members.len(),
        member_steps(members.take(k)) is Err,
    ensures
        member_steps(members) == member_steps(members.take(k)),
    decreases members.len() - k,
{
    if k < members.len() {
        assert(members.drop_last().take(k) =~= members.take(k));
        lemma_member_steps_failure(members.drop_last(), k);
    } else {
        assert(members.take(k) =~= members);
    }
}

/// There are operations for a value exactly where it has a typed tree, and
/// where it has none both name the same number.
pub proof fn lemma_steps_where_typed(value: JsonModel)
    ensures
        steps_of(value) is Ok <==> typed_of(value) is Ok,
        steps_of(value) is Err ==> steps_of(value)->Err_0 == typed_of(value)->Err_0,
    decreases value,
{
    match value {
        JsonModel::Array(items) => {
            lemma_item_steps_where_typed(items);
        },
        JsonModel::Object(members) => {
            lemma_member_steps_where_typed(members);
        },
        _ => {},
    }
}

/// The same for the items of a list.
pub proof fn lemma_item_steps_where_typed(items: Seq<JsonModel>)
    ensures
        item_steps(items) is Ok <==> typed_items(items) is Ok,
        item_steps(items) is Err ==> item_steps(items)->Err_0 == typed_items(items)->Err_0,
    decreases items,
{
    if items.len() > 0 {
        lemma_item_steps_where_typed(items.drop_last());
        lemma_steps_where_typed(items.last());
    }
}

/// The same for the members of a mapping.
pub proof fn lemma_member_steps_where_typed(members: Seq<(Seq<char>, JsonModel)>)
    ensures
        member_steps(members) is Ok <==> typed_members(members) is Ok,
        member_steps(members) is Err ==> member_steps(members)->Err_0 == typed_members(
            members,
        )->Err_0,
    decreases members,
{
    if members.len() > 0 {
        lemma_member_steps_where_typed(members.drop_last());
        lemma_steps_where_typed(members.last().1);
    }
}

/// The nodes that wait after one operation, the newest last, or nothing
/// where the operation does not fit the nodes that wait. To make a node
/// puts its kind's empty value last; to set replaces the payload of the last
/// node, which must be of the kind; to reserve leaves the nodes as they are
/// and asks that the last is of the kind named, a list or a mapping; to push
/// takes the last node away and appends it to the one before.
pub open spec fn apply(step: StepModel, stack: Seq<ResponseModel>) -> Option<Seq<ResponseModel>> {
    let rest = stack.drop_last();
    match step {
        StepModel::Make(kind) => Some(stack.push(ResponseModel::empty(kind))),
        StepModel::SetBool(b) => if stack.len() > 0 && stack.last() is Boolean {
            Some(rest.push(ResponseModel::Boolean(b)))
        } else {
            None
        },
        StepModel::SetInt(n) => if stack.len() > 0 && stack.last() is Int {
            Some(rest.push(ResponseModel::Int(n)))
        } else {
            None
        },
        StepModel::SetFloat(text) => if stack.len() > 0 && stack.last() is Float {
            Some(rest.push(ResponseModel::Float(text)))
        } else {
            None
        },
        StepModel::SetString(text) => if stack.len() > 0 && stack.last().is_text() {
            Some(rest.push(stack.last().with_text(encode_utf8(text))))
        } else {
            None
        },
        StepModel::Reserve { kind, capacity } => if stack.len() > 0 && stack.last().kind() == kind
            && stack.last().is_container() {
            Some(stack)
        } else {
            None
        },
        StepModel::PushListEntry { index } => if stack.len() > 1 && rest.last() is List {
            Some(
                rest.drop_last().push(
                    ResponseModel::List(rest.last()->List_0.push(stack.last())),
                ),
            )
        } else {
            None
        },
        StepModel::PushMapEntry { name } => if stack.len() > 1 && rest.last() is Mapping {
            Some(
                rest.drop_last().push(
                    ResponseModel::Mapping(
                        rest.last()->Mapping_0.push((encode_utf8(name), stack.last())),
                    ),
                ),
            )
        } else {
            None
        },
    }
}

/// The nodes that wait after a run of operations, made in order.
pub open spec fn run(steps: Seq<StepModel>, stack: Seq<ResponseModel>) -> Option<
    Seq<ResponseModel>,
>
    decreases steps.len(),
{
    if steps.len() == 0 {
        Some(stack)
    } else {
        match run(steps.drop_last(), stack) {
            Some(middle) => apply(steps.last(), middle),
            None => None,
        }
    }
}

/// A run of one operation is that operation.
pub proof fn lemma_run_one(step: StepModel, stack: Seq<ResponseModel>)
    ensures
        run(seq![step], stack) == apply(step, stack),
{
    let one = seq![step];
    assert(one.drop_last() =~= Seq::<StepModel>::empty());
    assert(run(one.drop_last(), stack) == Some(stack));
}

/// A run of two runs is the second made on what the first leaves.
pub proof fn lemma_run_concat(
    first: Seq<StepModel>,
    second: Seq<StepModel>,
    stack: Seq<ResponseModel>,
)
    ensures
        run(first + second, stack) == match run(first, stack) {
            Some(middle) => run(second, middle),
            None => None,
        },
    decreases second.len(),
{
    if second.len() == 0 {
        assert(first + second =~= first);
    } else {
        assert((first + second).drop_last() =~= first + second.drop_last());
        assert((first + second).last() == second.last());
        lemma_run_concat(first, second.drop_last(), stack);
    }
}

/// A leaf is made and set: the two operations leave the leaf last.
proof fn lemma_leaf_build(
    kind: ResponseValueType,
    set: StepModel,
    leaf: ResponseModel,
    stack: Seq<ResponseModel>,
)
    requires
        apply(set, stack.push(ResponseModel::empty(kind))) == Some(stack.push(leaf)),
    ensures
        run(seq![StepModel::Make(kind), set], stack) == Some(stack.push(leaf)),
{
    let make = StepModel::Make(kind);
    assert(seq![make, set] =~= seq![make] + seq![set]);
    lemma_run_concat(seq![make], seq![set], stack);
    lemma_run_one(make, stack);
    lemma_run_one(set, stack.push(ResponseModel::empty(kind)));
}

/// The operations for a value build its typed tree: made in order on any
/// nodes that wait, they leave those nodes as they were and the typed tree
/// of the value after them. So every operation finds the node it is made on,
/// and room is asked of a container before anything is pushed to it.
pub proof fn lemma_steps_build(value: JsonModel, stack: Seq<ResponseModel>)
    requires
        steps_of(value) is Ok,
    ensures
        typed_of(value) is Ok,
        run(steps_of(value)->Ok_0, stack) == Some(stack.push(typed_of(value)->Ok_0)),
    decreases value,
{
    lemma_steps_where_typed(value);
    match value {
        JsonModel::Null => {
            lemma_run_one(StepModel::Make(ResponseValueType::Null), stack);
        },
        JsonModel::Bool(b) => {
            let set = StepModel::SetBool(b);
            let made = stack.push(ResponseModel::empty(ResponseValueType::Boolean));
            assert(made.drop_last() =~= stack);
            lemma_leaf_build(ResponseValueType::Boolean, set, ResponseModel::Boolean(b), stack);
        },
        JsonModel::Number(NumberModel::Float(text)) => {
            let set = StepModel::SetFloat(text);
            let made = stack.push(ResponseModel::empty(ResponseValueType::Float));
            assert(made.drop_last() =~= stack);
            lemma_leaf_build(ResponseValueType::Float, set, ResponseModel::Float(text), stack);
        },
        JsonModel::Number(n) => {
            let i = n.as_i64()->Some_0;
            let set = StepModel::SetInt(i);
            let made = stack.push(ResponseModel::empty(ResponseValueType::Int));
            assert(made.drop_last() =~= stack);
            lemma_leaf_build(ResponseValueType::Int, set, ResponseModel::Int(i), stack);
        },
        JsonModel::String(s) => {
            let set = StepModel::SetString(s);
            let made = stack.push(ResponseModel::empty(ResponseValueType::String));
            assert(made.drop_last() =~= stack);
            lemma_leaf_build(
                ResponseValueType::String,
                set,
                ResponseModel::String(encode_utf8(s)),
                stack,
            );
        },
        JsonModel::Array(items) => {
            if items.len() == 0 {
                lemma_run_one(StepModel::Make(ResponseValueType::List), stack);
                assert(typed_items(items)->Ok_0 =~= Seq::<ResponseModel>::empty());
            } else {
                let reserve = StepModel::Reserve {
                    kind: ResponseValueType::List,
                    capacity: items.len() as usize,
                };
                let made = stack.push(ResponseModel::List(Seq::empty()));
                assert(apply(reserve, made) == Some(made));
                lemma_leaf_build(
                    ResponseValueType::List,
                    reserve,
                    ResponseModel::List(Seq::empty()),
                    stack,
                );
                lemma_run_concat(list_head(items.len()), item_steps(items)->Ok_0, stack);
                lemma_items_build(items, stack);
            }
        },
        JsonModel::Object(members) => {
            if members.len() == 0 {
                lemma_run_one(StepModel::Make(ResponseValueType::Mapping), stack);
                assert(typed_members(members)->Ok_0 =~= Seq::<
                    (Seq<u8>, ResponseModel),
                >::empty());
            } else {
                let reserve = StepModel::Reserve {
                    kind: ResponseValueType::Mapping,
                    capacity: members.len() as usize,
                };
                let made = stack.push(ResponseModel::Mapping(Seq::empty()));
                assert(apply(reserve, made) == Some(made));
                lemma_leaf_build(
                    ResponseValueType::Mapping,
                    reserve,
                    ResponseModel::Mapping(Seq::empty()),
                    stack,
                );
                lemma_run_concat(mapping_head(members.len()), member_steps(members)->Ok_0, stack);
                lemma_members_build(members, stack);
            }
        },
    }
}

/// The operations for the items of a list, made on the empty list, leave
/// the list of the items' typed trees.
pub proof fn lemma_items_build(items: Seq<JsonModel>, stack: Seq<ResponseModel>)
    requires
        item_steps(items) is Ok,
    ensures
        typed_items(items) is Ok,
        run(item_steps(items)->Ok_0, stack.push(ResponseModel::List(Seq::empty()))) == Some(
            stack.push(ResponseModel::List(typed_items(items)->Ok_0)),
        ),
    decreases items,
{
    lemma_item_steps_where_typed(items);
    let start = stack.push(ResponseModel::List(Seq::empty()));
    if items.len() > 0 {
        let before = item_steps(items.drop_last())->Ok_0;
        let child = steps_of(items.last())->Ok_0;
        let push = StepModel::PushListEntry { index: (items.len() - 1) as usize };
        lemma_items_build(items.drop_last(), stack);
        let built = typed_items(items.drop_last())->Ok_0;
        let middle = stack.push(ResponseModel::List(built));
        lemma_steps_build(items.last(), middle);
        let tree = typed_of(items.last())->Ok_0;
        lemma_run_concat(before, child, start);
        lemma_run_concat(before + child, seq![push], start);
        lemma_run_one(push, middle.push(tree));
        assert(middle.push(tree).drop_last() =~= middle);
        assert(middle.drop_last() =~= stack);
    } else {
        assert(typed_items(items)->Ok_0 =~= Seq::<ResponseModel>::empty());
    }
}

/// The operations for the members of a mapping, made on the empty mapping,
/// leave the mapping of the members' typed trees.
pub proof fn lemma_members_build(
    members: Seq<(Seq<char>, JsonModel)>,
    stack: Seq<ResponseModel>,
)
    requires
        member_steps(members) is Ok,
    ensures
        typed_members(members) is Ok,
        run(member_steps(members)->Ok_0, stack.push(ResponseModel::Mapping(Seq::empty())))
            == Some(stack.push(ResponseModel::Mapping(typed_members(members)->Ok_0))),
    decreases members,
{
    lemma_member_steps_where_typed(members);
    let start = stack.push(ResponseModel::Mapping(Seq::empty()));
    if members.len() > 0 {
        let before = member_steps(members.drop_last())->Ok_0;
        let child = steps_of(members.last().1)->Ok_0;
        let push = StepModel::PushMapEntry { name: members.last().0 };
        lemma_members_build(members.drop_last(), stack);
        let built = typed_members(members.drop_last())->Ok_0;
        let middle = stack.push(ResponseModel::Mapping(built));
        lemma_steps_build(members.last().1, middle);
        let tree = typed_of(members.last().1)->Ok_0;
        lemma_run_concat(before, child, start);
        lemma_run_concat(before + child, seq![push], start);
        lemma_run_one(push, middle.push(tree));
        assert(middle.push(tree).drop_last() =~= middle);
        assert(middle.drop_last() =~= stack);
    } else {
        assert(typed_members(members)->Ok_0 =~= Seq::<(Seq<u8>, ResponseModel)>::empty());
    }
}

/// The operations that build the typed tree of a value, in order: see
/// `steps_of`. There are operations for every value but one that holds a
/// number that is neither a 64-bit signed integer nor a float, and then the
/// first such number is the error.
pub fn node_steps(value: &JsonValue) -> (steps: Result<Vec<NodeStep>, ConversionError>)
    ensures
        match steps {
            Ok(steps) => steps_of(value@) == Ok::<Seq<StepModel>, u64>(steps_model(steps@)),
            Err(ConversionError::UnrecognizedNumber(n)) => steps_of(value@) == Err::<
                Seq<StepModel>,
                u64,
            >(n),
            Err(_) => false,
        },
    decreases value,
{
    let mut steps: Vec<NodeStep> = Vec::new();
    match value {
        JsonValue::Null => {
            steps.push(NodeStep::Make(ResponseValueType::Null));
        },
        JsonValue::Bool(b) => {
            steps.push(NodeStep::Make(ResponseValueType::Boolean));
            steps.push(NodeStep::SetBool(*b));
        },
        JsonValue::Number(JsonNumber::Float(text)) => {
            steps.push(NodeStep::Make(ResponseValueType::Float));
            steps.push(NodeStep::SetFloat(text.clone()));
        },
        JsonValue::Number(number) => match number.as_i64() {
            Some(i) => {
                steps.push(NodeStep::Make(ResponseValueType::Int));
                steps.push(NodeStep::SetInt(i));
            },
            None => match number {
                JsonNumber::PosInt(n) => {
                    return Err(ConversionError::UnrecognizedNumber(*n));
                },
                _ => {
                    return Err(ConversionError::UnrecognizedNumber(0));
                },
            },
        },
        JsonValue::String(text) => {
            steps.push(NodeStep::Make(ResponseValueType::String));
            steps.push(NodeStep::SetString(text.clone()));
        },
        JsonValue::Array(items) => {
            let ghost all = array_model(items@);
            proof {
                lemma_array_model(*value);
            }
            steps.push(NodeStep::Make(ResponseValueType::List));
            let count = items.len();
            if count > 0 {
                steps.push(NodeStep::Reserve { kind: ResponseValueType::List, capacity: count });
                assert(steps_model(steps@) =~= list_head(all.len()) + item_steps(
                    all.take(0),
                )->Ok_0);
                let mut index: usize = 0;
                while index < count
                    invariant
                        index <= count,
                        count == items@.len(),
                        all == array_model(items@),
                        *value == JsonValue::Array(*items),
                        value@ == JsonModel::Array(all),
                        item_steps(all.take(index as int)) is Ok,
                        steps_model(steps@) == list_head(all.len()) + item_steps(
                            all.take(index as int),
                        )->Ok_0,
                    decreases count - index,
                {
                    assert(all.take(index + 1).drop_last() =~= all.take(index as int));
                    assert(all.take(index + 1).last() == items[index as int]@);
                    assert(decreases_to!(value => items));
                    assert(decreases_to!(items => items[index as int]));
                    let ghost before = steps_model(steps@);
                    let mut child = match node_steps(&items[index]) {
                        Ok(child) => child,
                        Err(error) => {
                            proof {
                                lemma_item_steps_failure(all, index + 1);
                            }
                            return Err(error);
                        },
                    };
                    let ghost built = steps_model(child@);
                    steps.append(&mut child);
                    steps.push(NodeStep::PushListEntry { index });
                    assert(steps_model(steps@) =~= before + built + seq![
                        StepModel::PushListEntry { index },
                    ]);
                    assert(list_head(all.len()) + item_steps(all.take(index + 1))->Ok_0
                        =~= steps_model(steps@));
                    index = index + 1;
                }
                assert(all.take(index as int) =~= all);
            } else {
                assert(steps_model(steps@) =~= seq![StepModel::Make(ResponseValueType::List)]);
            }
        },
        JsonValue::Object(members) => {
            let ghost all = object_model(members@);
            proof {
                lemma_object_model(*value);
            }
            steps.push(NodeStep::Make(ResponseValueType::Mapping));
            let count = members.len();
            if count > 0 {
                steps.push(
                    NodeStep::Reserve { kind: ResponseValueType::Mapping, capacity: count },
                );
                assert(steps_model(steps@) =~= mapping_head(all.len()) + member_steps(
                    all.take(0),
                )->Ok_0);
                let mut index: usize = 0;
                while index < count
                    invariant
                        index <= count,
                        count == members@.len(),
                        all == object_model(members@),
                        *value == JsonValue::Object(*members),
                        value@ == JsonModel::Object(all),
                        member_steps(all.take(index as int)) is Ok,
                        steps_model(steps@) == mapping_head(all.len()) + member_steps(
                            all.take(index as int),
                        )->Ok_0,
                    decreases count - index,
                {
                    assert(all.take(index + 1).drop_last() =~= all.take(index as int));
                    assert(all.take(index + 1).last() == (
                        members[index as int].0@,
                        members[index as int].1@,
                    ));
                    assert(decreases_to!(value => members));
                    assert(decreases_to!(members => members[index as int]));
                    assert(decreases_to!(members[index as int] => members[index as int].1));
                    let ghost before = steps_model(steps@);
                    let mut child = match node_steps(&members[index].1) {
                        Ok(child) => child,
                        Err(error) => {
                            proof {
                                lemma_member_steps_failure(all, index + 1);
                            }
                            return Err(error);
                        },
                    };
                    let ghost built = steps_model(child@);
                    let name = members[index].0.clone();
                    steps.append(&mut child);
                    steps.push(NodeStep::PushMapEntry { name });
                    assert(steps_model(steps@) =~= before + built + seq![
                        StepModel::PushMapEntry { name: name@ },
                    ]);
                    assert(mapping_head(all.len()) + member_steps(all.take(index + 1))->Ok_0
                        =~= steps_model(steps@));
                    index = index + 1;
                }
                assert(all.take(index as int) =~= all);
            } else {
                assert(steps_model(steps@) =~= seq![StepModel::Make(ResponseValueType::Mapping)]);
            }
        },
    }
    assert(steps_of(value@) is Ok ==> steps_model(steps@) =~= steps_of(value@)->Ok_0);
    Ok(steps)
}

impl StepModel {
    /// The text for an operation that the engine refused, with the words of
    /// its cause. A node that could not be made has no cause to give.
    pub open spec fn failure_text(self, cause: Seq<char>) -> Seq<char> {
        match self {
            StepModel::Make(kind) => allocate_failure_text(kind),
            StepModel::SetBool(_) => set_failure_text(ResponseValueType::Boolean, cause),
            StepModel::SetInt(_) => set_failure_text(ResponseValueType::Int, cause),
            StepModel::SetFloat(_) => set_failure_text(ResponseValueType::Float, cause),
            StepModel::SetString(_) => set_failure_text(ResponseValueType::String, cause),
            StepModel::Reserve { kind, capacity } => reserve_failure_text(kind, capacity, cause),
            StepModel::PushListEntry { index } => push_item_failure_text(index, cause),
            StepModel::PushMapEntry { name } => push_member_failure_text(name, cause),
        }
    }
}

impl NodeStep {
    /// The text for this operation where the engine refused it, with the
    /// words of its cause: the operation, the kind of node and, for a push,
    /// the place or the name.
    pub fn failure_message(&self, cause: &str) -> (message: String)
        ensures
            message@ == self@.failure_text(cause@),
    {
        match self {
            NodeStep::Make(kind) => allocate_failure(*kind),
            NodeStep::SetBool(_) => set_failure(ResponseValueType::Boolean, cause),
            NodeStep::SetInt(_) => set_failure(ResponseValueType::Int, cause),
            NodeStep::SetFloat(_) => set_failure(ResponseValueType::Float, cause),
            NodeStep::SetString(_) => set_failure(ResponseValueType::String, cause),
            NodeStep::Reserve { kind, capacity } => reserve_failure(*kind, *capacity, cause),
            NodeStep::PushListEntry { index } => push_item_failure(*index, cause),
            NodeStep::PushMapEntry { name } => push_member_failure(name.as_str(), cause),
        }
    }
}

} // verus!
