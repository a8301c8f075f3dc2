//! Dynamically typed values: the loosely typed side of the codec.

use vstd::prelude::*;

verus! {

/// A number of a dynamic value: a non-negative integer, a negative integer,
/// or a floating-point value, held by the decimal number that stands for it:
/// the shortest one that reads back as the same value.
#[derive(Debug, PartialEq)]
pub enum JsonNumber {
    PosInt(u64),
    NegInt(i64),
    Float(String),
}

/// The mathematical model of a `JsonNumber`.
pub enum NumberModel {
    PosInt(u64),
    NegInt(i64),
    Float(Seq<char>),
}

impl View for JsonNumber {
    type V = NumberModel;

    open spec fn view(&self) -> NumberModel {
        match self {
            JsonNumber::PosInt(n) => NumberModel::PosInt(*n),
            JsonNumber::NegInt(n) => NumberModel::NegInt(*n),
            JsonNumber::Float(text) => NumberModel::Float(text@),
        }
    }
}

impl Clone for JsonNumber {
    fn clone(&self) -> (r: Self)
        ensures
            r@ == self@,
    {
        match self {
            JsonNumber::PosInt(n) => JsonNumber::PosInt(*n),
            JsonNumber::NegInt(n) => JsonNumber::NegInt(*n),
            JsonNumber::Float(text) => JsonNumber::Float(text.clone()),
        }
    }
}

/// A dynamically typed value tree. An object keeps its members in order.
#[derive(Debug, PartialEq)]
pub enum JsonValue {
    Null,
    Bool(bool),
    Number(JsonNumber),
    String(String),
    Array(Vec<JsonValue>),
    Object(Vec<(String, JsonValue)>),
}

/// The mathematical model of a `JsonValue`.
pub enum JsonTree {
    Null,
    Bool(bool),
    Number(NumberModel),
    String(Seq<char>),
    Array(Seq<JsonTree>),
    Object(Seq<(Seq<char>, JsonTree)>),
}

/// The model of a stored value: strings by their text, arrays and objects by
/// the models of what they hold, in the same order.
pub open spec fn json_tree(value: JsonValue) -> JsonTree
    decreases value,
{
    match value {
        JsonValue::Null => JsonTree::Null,
        JsonValue::Bool(b) => JsonTree::Bool(b),
        JsonValue::Number(n) => JsonTree::Number(n@),
        JsonValue::String(s) => JsonTree::String(s@),
        JsonValue::Array(items) => JsonTree::Array(
            Seq::new(
                items@.len(),
                |i: int|
                    if 0 <= i < items@.len() {
                        json_tree(items@[i])
                    } else {
                        JsonTree::Null
                    },
            ),
        ),
        JsonValue::Object(members) => JsonTree::Object(
            Seq::new(
                members@.len(),
                |i: int|
                    if 0 <= i < members@.len() {
                        (members@[i].0@, json_tree(members@[i].1))
                    } else {
                        (Seq::empty(), JsonTree::Null)
                    },
            ),
        ),
    }
}

impl View for JsonValue {
    type V = JsonTree;

    open spec fn view(&self) -> JsonTree {
        json_tree(*self)
    }
}

/// The models of a run of stored values, in order.
pub open spec fn json_items(items: Seq<JsonValue>) -> Seq<JsonTree> {
    Seq::new(items.len(), |i: int| items[i]@)
}

/// The models of a run of stored members, in order.
pub open spec fn json_members(members: Seq<(String, JsonValue)>) -> Seq<(Seq<char>, JsonTree)> {
    crate::assoc::model(members)
}

/// The view of an array is the array of its items' views.
pub proof fn lemma_json_array_view(items: Vec<JsonValue>)
    ensures
        JsonValue::Array(items)@ == JsonTree::Array(json_items(items@)),
{
    let got = JsonValue::Array(items)@->Array_0;
    assert(got.len() == items@.len());
    assert forall|i: int| 0 <= i < got.len() implies got[i] == json_items(items@)[i] by {}
    assert(got =~= json_items(items@));
}

/// The view of an object is the list of its members' views.
pub proof fn lemma_json_object_view(members: Vec<(String, JsonValue)>)
    ensures
        JsonValue::Object(members)@ == JsonTree::Object(json_members(members@)),
{
    let got = JsonValue::Object(members)@->Object_0;
    assert(got.len() == members@.len());
    assert forall|i: int| 0 <= i < got.len() implies got[i] == json_members(members@)[i] by {}
    assert(got =~= json_members(members@));
}

/// Whether every object of the value is a mapping: no key occurs twice in
/// it.
pub open spec fn json_well_formed(value: JsonTree) -> bool
    decreases value,
{
    match value {
        JsonTree::Array(items) => forall|i: int|
            0 <= i < items.len() ==> json_well_formed(#[trigger] items[i]),
        JsonTree::Object(members) => crate::assoc::distinct(crate::assoc::keys_of(members))
            && forall|i: int|
            0 <= i < members.len() ==> json_well_formed((#[trigger] members[i]).1),
        _ => true,
    }
}

/// Storing a well-formed value keeps an object well formed.
pub proof fn lemma_json_put_well_formed(
    members: Seq<(Seq<char>, JsonTree)>,
    key: Seq<char>,
    value: JsonTree,
)
    requires
        json_well_formed(JsonTree::Object(members)),
        json_well_formed(value),
    ensures
        json_well_formed(JsonTree::Object(crate::assoc::put(members, key, value))),
{
    crate::assoc::lemma_put_distinct(members, key, value);
    crate::assoc::lemma_position(crate::assoc::keys_of(members), key);
    let after = crate::assoc::put(members, key, value);
    assert forall|i: int| 0 <= i < after.len() implies json_well_formed(
        (#[trigger] after[i]).1,
    ) by {
        if i < members.len() && crate::assoc::position(crate::assoc::keys_of(members), key)
            != Some(i) {
            assert(after[i] == members[i]);
        }
    }
}

/// A removal keeps an object well formed.
pub proof fn lemma_json_without_well_formed(members: Seq<(Seq<char>, JsonTree)>, key: Seq<char>)
    requires
        json_well_formed(JsonTree::Object(members)),
    ensures
        json_well_formed(JsonTree::Object(crate::assoc::without(members, key))),
{
    crate::assoc::lemma_without_distinct(members, key);
    let after = crate::assoc::without(members, key);
    assert forall|j: int| 0 <= j < after.len() implies json_well_formed(
        (#[trigger] after[j]).1,
    ) by {
        crate::assoc::lemma_without_members(members, key, j);
        let i = choose|i: int| 0 <= i < members.len() && members[i] == after[j];
        assert(json_well_formed(members[i].1));
    }
}

impl JsonTree {
    /// Whether every object of the value is a mapping.
    pub open spec fn well_formed(self) -> bool {
        json_well_formed(self)
    }

    /// The member stored under `key`, when this is an object that has one.
    pub open spec fn member(self, key: Seq<char>) -> Option<JsonTree> {
        match self {
            JsonTree::Object(members) => crate::assoc::lookup(members, key),
            _ => None,
        }
    }

    /// The text of a string value.
    pub open spec fn text(self) -> Option<Seq<char>> {
        match self {
            JsonTree::String(s) => Some(s),
            _ => None,
        }
    }

    /// The truth value of a boolean value.
    pub open spec fn truth(self) -> Option<bool> {
        match self {
            JsonTree::Bool(b) => Some(b),
            _ => None,
        }
    }

    /// The text found under `key`, when this is an object whose member there
    /// is a string.
    pub open spec fn member_text(self, key: Seq<char>) -> Option<Seq<char>> {
        match self.member(key) {
            Some(v) => v.text(),
            None => None,
        }
    }

    /// The truth value found under `key`, when this is an object whose member
    /// there is a boolean.
    pub open spec fn member_truth(self, key: Seq<char>) -> Option<bool> {
        match self.member(key) {
            Some(v) => v.truth(),
            None => None,
        }
    }
}

/// A copy of a run of members.
pub fn clone_json_members(members: &Vec<(String, JsonValue)>) -> (r: Vec<(String, JsonValue)>)
    ensures
        json_members(r@) == json_members(members@),
    decreases members,
{
    let mut out: Vec<(String, JsonValue)> = Vec::new();
    let mut i: usize = 0;
    while i < members.len()
        invariant
            i <= members.len(),
            out.len() == i,
            forall|j: int| 0 <= j < i ==> out@[j].0@ == members@[j].0@ && out@[j].1@ == members@[j].1@,
        decreases members.len() - i,
    {
        let key = members[i].0.clone();
        let value = members[i].1.clone();
        out.push((key, value));
        i += 1;
    }
    assert(json_members(out@) =~= json_members(members@));
    out
}

impl Clone for JsonValue {
    fn clone(&self) -> (r: Self)
        ensures
            r@ == self@,
        decreases self,
    {
        match self {
            JsonValue::Null => JsonValue::Null,
            JsonValue::Bool(b) => JsonValue::Bool(*b),
            JsonValue::Number(n) => JsonValue::Number(n.clone()),
            JsonValue::String(s) => JsonValue::String(s.clone()),
            JsonValue::Array(items) => {
                let mut out: Vec<JsonValue> = Vec::new();
                let mut i: usize = 0;
                while i < items.len()
                    invariant
                        i <= items.len(),
                        out.len() == i,
                        forall|j: int| 0 <= j < i ==> out@[j]@ == items@[j]@,
                        *self == JsonValue::Array(*items),
                    decreases items.len() - i,
                {
                    assert(decreases_to!(self => self->Array_0));
                    assert(decreases_to!(items => items[i as int]));
                    out.push(items[i].clone());
                    i += 1;
                }
                proof {
                    lemma_json_array_view(out);
                    lemma_json_array_view(*items);
                    assert(json_items(out@) =~= json_items(items@));
                }
                JsonValue::Array(out)
            },
            JsonValue::Object(members) => {
                let out = clone_json_members(members);
                proof {
                    lemma_json_object_view(out);
                    lemma_json_object_view(*members);
                }
                JsonValue::Object(out)
            },
        }
    }
}

impl JsonValue {
    /// The member stored under `key`, when this is an object that has one.
    pub fn get(&self, key: &str) -> (r: Option<&JsonValue>)
        ensures
            match r {
                Some(v) => self@.member(key@) == Some(v@),
                None => self@.member(key@) is None,
            },
    {
        match self {
            JsonValue::Object(members) => {
                proof {
                    lemma_json_object_view(*members);
                }
                let owned = key.to_owned();
                match crate::assoc::find(members, &owned) {
                    Some(i) => Some(&members[i].1),
                    None => None,
                }
            },
            _ => None,
        }
    }

    /// The text of a string value.
    pub fn as_str(&self) -> (r: Option<&str>)
        ensures
            match r {
                Some(s) => self@.text() == Some(s@),
                None => self@.text() is None,
            },
    {
        match self {
            JsonValue::String(s) => Some(s.as_str()),
            _ => None,
        }
    }

    /// The truth value of a boolean value.
    pub fn as_bool(&self) -> (r: Option<bool>)
        ensures
            r == self@.truth(),
    {
        match self {
            JsonValue::Bool(b) => Some(*b),
            _ => None,
        }
    }

    /// The members of an object, in order.
    pub fn as_object(&self) -> (r: Option<&Vec<(String, JsonValue)>>)
        ensures
            match r {
                Some(members) => self@ == JsonTree::Object(json_members(members@)),
                None => !(self@ is Object),
            },
    {
        match self {
            JsonValue::Object(members) => {
                proof {
                    lemma_json_object_view(*members);
                }
                Some(members)
            },
            _ => None,
        }
    }

    /// The text found under `key`, as an owned string.
    pub fn get_text(&self, key: &str) -> (r: Option<String>)
        ensures
            match r {
                Some(s) => self@.member_text(key@) == Some(s@),
                None => self@.member_text(key@) is None,
            },
    {
        match self.get(key) {
            Some(v) => match v.as_str() {
                Some(s) => Some(s.to_owned()),
                None => None,
            },
            None => None,
        }
    }
}

} // verus!
