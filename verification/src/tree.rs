//! The structured configuration format: a typed tree of tables, arrays and
//! scalars.

use crate::assoc::{
    distinct, find, keys_of, lemma_position, lemma_put_distinct, lemma_without_distinct,
    lemma_without_members, lookup, model, position, put, without,
};
use vstd::prelude::*;

verus! {

/// A value of the settings tree. A table keeps its entries in order; a
/// floating-point value is held by its shortest decimal text, a date-time by
/// its written form.
#[derive(Debug, PartialEq)]
pub enum TomlValue {
    String(String),
    Integer(i64),
    Float(String),
    Boolean(bool),
    Datetime(String),
    Array(Vec<TomlValue>),
    Table(Vec<(String, TomlValue)>),
}

/// The mathematical model of a `TomlValue`.
pub enum TomlTree {
    String(Seq<char>),
    Integer(i64),
    Float(Seq<char>),
    Boolean(bool),
    Datetime(Seq<char>),
    Array(Seq<TomlTree>),
    Table(Seq<(Seq<char>, TomlTree)>),
}

/// The model of a stored value: text by its characters, arrays and tables by
/// the models of what they hold, in the same order.
pub open spec fn toml_tree(value: TomlValue) -> TomlTree
    decreases value,
{
    match value {
        TomlValue::String(s) => TomlTree::String(s@),
        TomlValue::Integer(n) => TomlTree::Integer(n),
        TomlValue::Float(text) => TomlTree::Float(text@),
        TomlValue::Boolean(b) => TomlTree::Boolean(b),
        TomlValue::Datetime(text) => TomlTree::Datetime(text@),
        TomlValue::Array(items) => TomlTree::Array(
            Seq::new(
                items@.len(),
                |i: int|
                    if 0 <= i < items@.len() {
                        toml_tree(items@[i])
                    } else {
                        TomlTree::Boolean(false)
                    },
            ),
        ),
        TomlValue::Table(entries) => TomlTree::Table(
            Seq::new(
                entries@.len(),
                |i: int|
                    if 0 <= i < entries@.len() {
                        (entries@[i].0@, toml_tree(entries@[i].1))
                    } else {
                        (Seq::empty(), TomlTree::Boolean(false))
                    },
            ),
        ),
    }
}

impl View for TomlValue {
    type V = TomlTree;

    open spec fn view(&self) -> TomlTree {
        toml_tree(*self)
    }
}

/// The models of a run of stored values, in order.
pub open spec fn toml_items(items: Seq<TomlValue>) -> Seq<TomlTree> {
    Seq::new(items.len(), |i: int| items[i]@)
}

/// The view of an array is the array of its items' views.
pub proof fn lemma_toml_array_view(items: Vec<TomlValue>)
    ensures
        TomlValue::Array(items)@ == TomlTree::Array(toml_items(items@)),
{
    assert(toml_tree(TomlValue::Array(items))->Array_0 =~= toml_items(items@));
}

/// The view of a table is the list of its entries' views.
pub proof fn lemma_toml_table_view(entries: Vec<(String, TomlValue)>)
    ensures
        TomlValue::Table(entries)@ == TomlTree::Table(model(entries@)),
{
    assert(toml_tree(TomlValue::Table(entries))->Table_0 =~= model(entries@));
}

/// Whether every table of the tree is a mapping: no key occurs twice in it.
pub open spec fn toml_well_formed(value: TomlTree) -> bool
    decreases value,
{
    match value {
        TomlTree::Array(items) => forall|i: int|
            0 <= i < items.len() ==> toml_well_formed(#[trigger] items[i]),
        TomlTree::Table(entries) => distinct(keys_of(entries)) && forall|i: int|
            0 <= i < entries.len() ==> toml_well_formed((#[trigger] entries[i]).1),
        _ => true,
    }
}

/// What is found in a well-formed table is well formed.
pub proof fn lemma_entry_well_formed(entries: Seq<(Seq<char>, TomlTree)>, key: Seq<char>)
    requires
        toml_well_formed(TomlTree::Table(entries)),
        lookup(entries, key) is Some,
    ensures
        toml_well_formed(lookup(entries, key)->Some_0),
{
    lemma_position(keys_of(entries), key);
    let i = position(keys_of(entries), key)->Some_0;
    assert(toml_well_formed(entries[i].1));
}

/// Storing a well-formed value keeps a table well formed.
pub proof fn lemma_put_well_formed(
    entries: Seq<(Seq<char>, TomlTree)>,
    key: Seq<char>,
    value: TomlTree,
)
    requires
        toml_well_formed(TomlTree::Table(entries)),
        toml_well_formed(value),
    ensures
        toml_well_formed(TomlTree::Table(put(entries, key, value))),
{
    lemma_put_distinct(entries, key, value);
    lemma_position(keys_of(entries), key);
    let after = put(entries, key, value);
    assert forall|i: int| 0 <= i < after.len() implies toml_well_formed(
        (#[trigger] after[i]).1,
    ) by {
        if i < entries.len() && position(keys_of(entries), key) != Some(i) {
            assert(after[i] == entries[i]);
        }
    }
}

/// A removal keeps a table well formed.
pub proof fn lemma_without_well_formed(entries: Seq<(Seq<char>, TomlTree)>, key: Seq<char>)
    requires
        toml_well_formed(TomlTree::Table(entries)),
    ensures
        toml_well_formed(TomlTree::Table(without(entries, key))),
{
    lemma_without_distinct(entries, key);
    let after = without(entries, key);
    assert forall|j: int| 0 <= j < after.len() implies toml_well_formed(
        (#[trigger] after[j]).1,
    ) by {
        lemma_without_members(entries, key, j);
        let i = choose|i: int| 0 <= i < entries.len() && entries[i] == after[j];
        assert(toml_well_formed(entries[i].1));
    }
}

impl TomlTree {
    /// Whether every table of the tree is a mapping.
    pub open spec fn well_formed(self) -> bool {
        toml_well_formed(self)
    }

    /// The entry stored under `key`, when this is a table that has one.
    pub open spec fn entry(self, key: Seq<char>) -> Option<TomlTree> {
        match self {
            TomlTree::Table(entries) => lookup(entries, key),
            _ => None,
        }
    }

    /// The text of a string value.
    pub open spec fn text(self) -> Option<Seq<char>> {
        match self {
            TomlTree::String(s) => Some(s),
            _ => None,
        }
    }

    /// The text found under `key`, when this is a table whose entry there is
    /// a string.
    pub open spec fn entry_text(self, key: Seq<char>) -> Option<Seq<char>> {
        match self.entry(key) {
            Some(v) => v.text(),
            None => None,
        }
    }

    /// The entries of the table found under `key`, when this is a table
    /// whose entry there is a table.
    pub open spec fn entry_table(self, key: Seq<char>) -> Option<Seq<(Seq<char>, TomlTree)>> {
        match self.entry(key) {
            Some(TomlTree::Table(entries)) => Some(entries),
            _ => None,
        }
    }
}

/// A copy of a run of table entries.
pub fn clone_entries(entries: &Vec<(String, TomlValue)>) -> (r: Vec<(String, TomlValue)>)
    ensures
        model(r@) == model(entries@),
    decreases entries,
{
    let mut out: Vec<(String, TomlValue)> = Vec::new();
    let mut i: usize = 0;
    while i < entries.len()
        invariant
            i <= entries.len(),
            out.len() == i,
            forall|j: int|
                0 <= j < i ==> out@[j].0@ == entries@[j].0@ && out@[j].1@ == entries@[j].1@,
        decreases entries.len() - i,
    {
        let key = entries[i].0.clone();
        let value = entries[i].1.clone();
        out.push((key, value));
        i += 1;
    }
    assert(model(out@) =~= model(entries@));
    out
}

impl Clone for TomlValue {
    fn clone(&self) -> (r: Self)
        ensures
            r@ == self@,
        decreases self,
    {
        match self {
            TomlValue::String(s) => TomlValue::String(s.clone()),
            TomlValue::Integer(n) => TomlValue::Integer(*n),
            TomlValue::Float(text) => TomlValue::Float(text.clone()),
            TomlValue::Boolean(b) => TomlValue::Boolean(*b),
            TomlValue::Datetime(text) => TomlValue::Datetime(text.clone()),
            TomlValue::Array(items) => {
                let mut out: Vec<TomlValue> = Vec::new();
                let mut i: usize = 0;
                while i < items.len()
                    invariant
                        i <= items.len(),
                        out.len() == i,
                        forall|j: int| 0 <= j < i ==> out@[j]@ == items@[j]@,
                        self->Array_0 == *items,
                        self is Array,
                    decreases items.len() - i,
                {
                    assert(decreases_to!(self => self->Array_0));
                    assert(decreases_to!(items => items[i as int]));
                    out.push(items[i].clone());
                    i += 1;
                }
                proof {
                    lemma_toml_array_view(out);
                    lemma_toml_array_view(*items);
                    assert(toml_items(out@) =~= toml_items(items@));
                }
                TomlValue::Array(out)
            },
            TomlValue::Table(entries) => {
                let out = clone_entries(entries);
                proof {
                    lemma_toml_table_view(out);
                    lemma_toml_table_view(*entries);
                }
                TomlValue::Table(out)
            },
        }
    }
}

impl TomlValue {
    /// An empty table.
    pub fn empty_table() -> (r: TomlValue)
        ensures
            r@ == TomlTree::Table(Seq::empty()),
    {
        let entries: Vec<(String, TomlValue)> = Vec::new();
        proof {
            lemma_toml_table_view(entries);
            assert(model(entries@) =~= Seq::empty());
        }
        TomlValue::Table(entries)
    }

    /// A string value holding `text`.
    pub fn text_of(text: &str) -> (r: TomlValue)
        ensures
            r@ == TomlTree::String(text@),
    {
        TomlValue::String(text.to_owned())
    }

    /// The entry stored under `key`, when this is a table that has one.
    pub fn get(&self, key: &str) -> (r: Option<&TomlValue>)
        ensures
            match r {
                Some(v) => self@.entry(key@) == Some(v@),
                None => self@.entry(key@) is None,
            },
    {
        match self {
            TomlValue::Table(entries) => {
                proof {
                    lemma_toml_table_view(*entries);
                }
                let owned = key.to_owned();
                match find(entries, &owned) {
                    Some(i) => Some(&entries[i].1),
                    None => None,
                }
            },
            _ => None,
        }
    }

    /// The text of a string value.
    pub fn as_str(&self) -> (r: Option<&str>)
        ensures
            match r {
                Some(s) => self@.text() == Some(s@),
                None => self@.text() is None,
            },
    {
        match self {
            TomlValue::String(s) => Some(s.as_str()),
            _ => None,
        }
    }

    /// The entries of a table, in order.
    pub fn as_table(&self) -> (r: Option<&Vec<(String, TomlValue)>>)
        ensures
            match r {
                Some(entries) => self@ == TomlTree::Table(model(entries@)),
                None => !(self@ is Table),
            },
    {
        match self {
            TomlValue::Table(entries) => {
                proof {
                    lemma_toml_table_view(*entries);
                }
                Some(entries)
            },
            _ => None,
        }
    }

    /// The items of an array, in order.
    pub fn as_array(&self) -> (r: Option<&Vec<TomlValue>>)
        ensures
            match r {
                Some(items) => self@ == TomlTree::Array(toml_items(items@)),
                None => !(self@ is Array),
            },
    {
        match self {
            TomlValue::Array(items) => {
                proof {
                    lemma_toml_array_view(*items);
                }
                Some(items)
            },
            _ => None,
        }
    }

    /// The text found under `key`, as an owned string.
    pub fn get_text(&self, key: &str) -> (r: Option<String>)
        ensures
            match r {
                Some(s) => self@.entry_text(key@) == Some(s@),
                None => self@.entry_text(key@) is None,
            },
    {
        match self.get(key) {
            Some(v) => match v.as_str() {
                Some(s) => Some(s.to_owned()),
                None => None,
            },
            None => None,
        }
    }
}

} // verus!
