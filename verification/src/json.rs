//! The dynamic value: a JSON-like tree of null, booleans, numbers, strings,
//! arrays and objects.

use vstd::prelude::*;

verus! {

/// A number of the dynamic value. An integer is `NegInt` when it is below
/// zero and `PosInt` otherwise; anything else is a `Float`, held as decimal
/// text that is carried through and never computed on.
#[derive(Debug, PartialEq, Eq)]
pub enum JsonNumber {
    PosInt(u64),
    NegInt(i64),
    Float(String),
}

/// The mathematical value of a number.
pub enum NumberModel {
    PosInt(u64),
    NegInt(i64),
    Float(Seq<char>),
}

impl View for JsonNumber {
    type V = NumberModel;

    open spec fn view(&self) -> NumberModel {
        match self {
            JsonNumber::PosInt(n) => NumberModel::PosInt(*n),
            JsonNumber::NegInt(n) => NumberModel::NegInt(*n),
            JsonNumber::Float(text) => NumberModel::Float(text@),
        }
    }
}

impl NumberModel {
    /// An integer has one form only: `NegInt` is kept for numbers below zero.
    pub open spec fn well_formed(self) -> bool {
        self matches NumberModel::NegInt(n) ==> n < 0
    }

    /// The number as a 64-bit signed integer, where it is one.
    pub open spec fn as_i64(self) -> Option<i64> {
        match self {
            NumberModel::PosInt(n) => if n <= i64::MAX as u64 {
                Some(n as i64)
            } else {
                None
            },
            NumberModel::NegInt(n) => Some(n),
            NumberModel::Float(_) => None,
        }
    }

    /// The form in which a 64-bit signed integer is held.
    pub open spec fn from_i64(n: i64) -> NumberModel {
        if n < 0 {
            NumberModel::NegInt(n)
        } else {
            NumberModel::PosInt(n as u64)
        }
    }
}

impl JsonNumber {
    /// The number as a 64-bit signed integer, where it is one.
    pub fn as_i64(&self) -> (result: Option<i64>)
        ensures
            result == self@.as_i64(),
    {
        match self {
            JsonNumber::PosInt(n) => if *n <= i64::MAX as u64 {
                Some(*n as i64)
            } else {
                None
            },
            JsonNumber::NegInt(n) => Some(*n),
            JsonNumber::Float(_) => None,
        }
    }

    /// Holds a 64-bit signed integer in its one form.
    pub fn from_i64(n: i64) -> (number: JsonNumber)
        ensures
            number@ == NumberModel::from_i64(n),
            number@.well_formed(),
    {
        if n < 0 {
            JsonNumber::NegInt(n)
        } else {
            JsonNumber::PosInt(n as u64)
        }
    }
}

/// A dynamic value. The members of an `Object` stand in the order in which
/// their names first came.
#[derive(Debug, PartialEq, Eq)]
pub enum JsonValue {
    Null,
    Bool(bool),
    Number(JsonNumber),
    String(String),
    Array(Vec<JsonValue>),
    Object(Vec<(String, JsonValue)>),
}

/// The mathematical value of a dynamic value.
pub enum JsonModel {
    Null,
    Bool(bool),
    Number(NumberModel),
    String(Seq<char>),
    Array(Seq<JsonModel>),
    Object(Seq<(Seq<char>, JsonModel)>),
}

impl JsonValue {
    /// The mathematical value of this tree.
    pub open spec fn model(&self) -> JsonModel
        decreases self,
    {
        match self {
            JsonValue::Null => JsonModel::Null,
            JsonValue::Bool(b) => JsonModel::Bool(*b),
            JsonValue::Number(n) => JsonModel::Number(n@),
            JsonValue::String(s) => JsonModel::String(s@),
            JsonValue::Array(items) => JsonModel::Array(
                Seq::new(
                    items.len() as nat,
                    |i: int|
                        if 0 <= i < items.len() {
                            items[i].model()
                        } else {
                            JsonModel::Null
                        },
                ),
            ),
            JsonValue::Object(members) => JsonModel::Object(
                Seq::new(
                    members.len() as nat,
                    |i: int|
                        if 0 <= i < members.len() {
                            (members[i].0@, members[i].1.model())
                        } else {
                            (Seq::empty(), JsonModel::Null)
                        },
                ),
            ),
        }
    }
}

impl View for JsonValue {
    type V = JsonModel;

    open spec fn view(&self) -> JsonModel {
        self.model()
    }
}

/// The values of a run of dynamic values, in order.
pub open spec fn array_model(items: Seq<JsonValue>) -> Seq<JsonModel> {
    Seq::new(items.len(), |i: int| items[i].model())
}

/// The names and values of a run of members, in order.
pub open spec fn object_model(members: Seq<(String, JsonValue)>) -> Seq<(Seq<char>, JsonModel)> {
    Seq::new(members.len(), |i: int| (members[i].0@, members[i].1.model()))
}

/// An `Array`'s value is the values of its items.
pub proof fn lemma_array_model(value: JsonValue)
    requires
        value is Array,
    ensures
        value@ == JsonModel::Array(array_model(value->Array_0@)),
{
    assert(value@->Array_0 =~= array_model(value->Array_0@));
}

/// An `Object`'s value is the names and values of its members.
pub proof fn lemma_object_model(value: JsonValue)
    requires
        value is Object,
    ensures
        value@ == JsonModel::Object(object_model(value->Object_0@)),
{
    assert(value@->Object_0 =~= object_model(value->Object_0@));
}

/// No name stands twice among the members.
pub open spec fn distinct_names(members: Seq<(Seq<char>, JsonModel)>) -> bool {
    forall|i: int, j: int|
        0 <= i < j < members.len() ==> (#[trigger] members[i]).0 != (#[trigger] members[j]).0
}

/// The place of the member with the given name, or the number of members
/// where there is none.
pub open spec fn position_of(members: Seq<(Seq<char>, JsonModel)>, name: Seq<char>) -> int
    decreases members.len(),
{
    if members.len() == 0 {
        0
    } else if members.first().0 == name {
        0
    } else {
        1 + position_of(members.drop_first(), name)
    }
}

/// The members after `name` has been given `value`: a member of that name
/// keeps its place and takes the new value; a new name goes to the end.
pub open spec fn inserted(
    members: Seq<(Seq<char>, JsonModel)>,
    name: Seq<char>,
    value: JsonModel,
) -> Seq<(Seq<char>, JsonModel)> {
    let at = position_of(members, name);
    if at < members.len() {
        members.update(at, (name, value))
    } else {
        members.push((name, value))
    }
}

impl JsonModel {
    /// Every object in the tree has distinct names, and every integer its
    /// one form.
    pub open spec fn well_formed(self) -> bool
        decreases self,
    {
        match self {
            JsonModel::Number(n) => n.well_formed(),
            JsonModel::Array(items) => forall|i: int|
                0 <= i < items.len() ==> (#[trigger] items[i]).well_formed(),
            JsonModel::Object(members) => distinct_names(members) && forall|i: int|
                0 <= i < members.len() ==> (#[trigger] members[i]).1.well_formed(),
            _ => true,
        }
    }
}

/// `position_of` is the first place where the name stands.
pub proof fn lemma_position_of(members: Seq<(Seq<char>, JsonModel)>, name: Seq<char>, at: int)
    requires
        0 <= at <= members.len(),
        forall|k: int| 0 <= k < at ==> (#[trigger] members[k]).0 != name,
        at < members.len() ==> members[at].0 == name,
    ensures
        position_of(members, name) == at,
    decreases members.len(),
{
    if members.len() > 0 && at > 0 {
        let rest = members.drop_first();
        assert(members[0].0 != name);
        assert forall|k: int| 0 <= k < at - 1 implies (#[trigger] rest[k]).0 != name by {
            assert(rest[k] == members[k + 1]);
        }
        lemma_position_of(rest, name, at - 1);
    }
}

/// `position_of` is a place among the members, or their number; no member
/// before it has the name, and the member at it has.
pub proof fn lemma_position_of_bounds(members: Seq<(Seq<char>, JsonModel)>, name: Seq<char>)
    ensures
        0 <= position_of(members, name) <= members.len(),
        forall|k: int| 0 <= k < position_of(members, name) ==> (#[trigger] members[k]).0 != name,
        position_of(members, name) < members.len() ==> members[position_of(members, name)].0
            == name,
    decreases members.len(),
{
    if members.len() > 0 && members.first().0 != name {
        let rest = members.drop_first();
        lemma_position_of_bounds(rest, name);
        assert forall|k: int| 0 <= k < position_of(members, name) implies (
        #[trigger] members[k]).0 != name by {
            if k > 0 {
                assert(members[k] == rest[k - 1]);
            }
        }
    }
}

/// Giving a name a value keeps the names distinct.
pub proof fn lemma_inserted_distinct(
    members: Seq<(Seq<char>, JsonModel)>,
    name: Seq<char>,
    value: JsonModel,
)
    requires
        distinct_names(members),
    ensures
        distinct_names(inserted(members, name, value)),
{
    lemma_position_of_bounds(members, name);
    let at = position_of(members, name);
    let after = inserted(members, name, value);
    assert forall|i: int, j: int| 0 <= i < j < after.len() implies (#[trigger] after[i]).0 != (
    #[trigger] after[j]).0 by {
        if at < members.len() {
            assert(after[i].0 == members[i].0);
            assert(after[j].0 == members[j].0);
        } else if j == members.len() {
            assert(after[i] == members[i]);
        } else {
            assert(after[i] == members[i]);
            assert(after[j] == members[j]);
        }
    }
}

/// Gives `name` the value `value` among the members of an object: a member
/// of that name keeps its place and takes the new value; a new name goes to
/// the end.
pub fn insert_member(members: &mut Vec<(String, JsonValue)>, name: String, value: JsonValue)
    ensures
        object_model(final(members)@) == inserted(object_model(old(members)@), name@, value@),
{
    let ghost before = object_model(members@);
    let mut i: usize = 0;
    while i < members.len()
        invariant
            i <= members.len(),
            members@ == old(members)@,
            before == object_model(members@),
            forall|k: int| 0 <= k < i ==> (#[trigger] before[k]).0 != name@,
        decreases members.len() - i,
    {
        if members[i].0 == name {
            proof {
                lemma_position_of(before, name@, i as int);
            }
            members.set(i, (name, value));
            assert(object_model(members@) =~= before.update(i as int, (name@, value@)));
            return ;
        }
        i += 1;
    }
    proof {
        lemma_position_of(before, name@, i as int);
    }
    members.push((name, value));
    assert(object_model(members@) =~= before.push((name@, value@)));
}

/// The members that come of giving each name its value in turn: a name
/// that comes again keeps its first place and takes the later value.
pub open spec fn gathered(members: Seq<(Seq<char>, JsonModel)>) -> Seq<(Seq<char>, JsonModel)>
    decreases members.len(),
{
    if members.len() == 0 {
        Seq::empty()
    } else {
        inserted(gathered(members.drop_last()), members.last().0, members.last().1)
    }
}

/// Members with distinct names are gathered as they stand.
pub proof fn lemma_gathered_distinct(members: Seq<(Seq<char>, JsonModel)>)
    requires
        distinct_names(members),
    ensures
        gathered(members) == members,
    decreases members.len(),
{
    if members.len() > 0 {
        let before = members.drop_last();
        let name = members.last().0;
        assert forall|i: int, j: int| 0 <= i < j < before.len() implies (#[trigger] before[i]).0
            != (#[trigger] before[j]).0 by {
            assert(before[i] == members[i]);
            assert(before[j] == members[j]);
        }
        lemma_gathered_distinct(before);
        assert forall|k: int| 0 <= k < before.len() implies (#[trigger] before[k]).0 != name by {
            assert(before[k] == members[k]);
            assert(members[members.len() - 1].0 == name);
        }
        lemma_position_of(before, name, before.len() as int);
        assert(before.push(members.last()) =~= members);
    } else {
        assert(members =~= Seq::empty());
    }
}

} // verus!
