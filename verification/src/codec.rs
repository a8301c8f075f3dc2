//! The codec between dynamic values and the settings tree.
//!
//! Encoding never rejects a value: a null becomes the empty string, a number
//! becomes an integer where it has no fractional part and fits one, and a
//! float otherwise, and arrays and objects are encoded member by member.
//! Decoding projects a tree back onto dynamic values.

use crate::assoc::model;
use crate::json::{
    json_items, json_members, json_well_formed, lemma_json_array_view, lemma_json_object_view,
    JsonNumber, JsonTree, JsonValue, NumberModel,
};
use crate::decimal::{decimal_text, parse_whole, whole_within_i64, write_unsigned};
use crate::json_text::{float_text_of, unsigned_as_float};
use crate::text::same;
use crate::tree::{
    lemma_toml_array_view, lemma_toml_table_view, toml_items, toml_well_formed, TomlTree,
    TomlValue,
};
use vstd::prelude::*;

verus! {

/// The key under which a decoded date-time stands in its one-member object.
pub open spec fn datetime_key() -> Seq<char> {
    "$__toml_private_datetime"@
}

/// Whether the text of a float names a finite value.
pub open spec fn is_finite_text(text: Seq<char>) -> bool {
    text != "NaN"@ && text != "inf"@ && text != "-inf"@
}

/// The whole number that a float is, where it has no fractional part and
/// fits sixty-four signed bits. The float is judged by the decimal number
/// that stands for it.
pub open spec fn integral_float(text: Seq<char>) -> Option<i64> {
    whole_within_i64(text)
}

/// The image of a number: an integer where the number has no fractional
/// part and fits sixty-four signed bits, else a float, else its text.
pub open spec fn toml_of_number(n: NumberModel) -> TomlTree {
    match n {
        NumberModel::PosInt(u) => if u <= i64::MAX {
            TomlTree::Integer(u as i64)
        } else {
            match float_text_of(u) {
                Some(text) => TomlTree::Float(text),
                None => TomlTree::String(decimal_text(u as nat)),
            }
        },
        NumberModel::NegInt(i) => TomlTree::Integer(i),
        NumberModel::Float(text) => match integral_float(text) {
            Some(i) => TomlTree::Integer(i),
            None => TomlTree::Float(text),
        },
    }
}

/// The image of a dynamic value in the structured format.
pub open spec fn toml_of_json(value: JsonTree) -> TomlTree
    decreases value,
{
    match value {
        JsonTree::Null => TomlTree::String(Seq::empty()),
        JsonTree::Bool(b) => TomlTree::Boolean(b),
        JsonTree::Number(n) => toml_of_number(n),
        JsonTree::String(s) => TomlTree::String(s),
        JsonTree::Array(items) => TomlTree::Array(
            Seq::new(
                items.len(),
                |i: int|
                    if 0 <= i < items.len() {
                        toml_of_json(items[i])
                    } else {
                        TomlTree::Boolean(false)
                    },
            ),
        ),
        JsonTree::Object(members) => TomlTree::Table(
            Seq::new(
                members.len(),
                |i: int|
                    if 0 <= i < members.len() {
                        (members[i].0, toml_of_json(members[i].1))
                    } else {
                        (Seq::empty(), TomlTree::Boolean(false))
                    },
            ),
        ),
    }
}

/// The projection of a tree onto dynamic values. A float that is not finite
/// has no number to stand for it and becomes null; a date-time becomes an
/// object with its text under `datetime_key()`.
pub open spec fn json_of_toml(value: TomlTree) -> JsonTree
    decreases value,
{
    match value {
        TomlTree::String(s) => JsonTree::String(s),
        TomlTree::Integer(i) => JsonTree::Number(
            if i >= 0 {
                NumberModel::PosInt(i as u64)
            } else {
                NumberModel::NegInt(i)
            },
        ),
        TomlTree::Float(text) => if is_finite_text(text) {
            JsonTree::Number(NumberModel::Float(text))
        } else {
            JsonTree::Null
        },
        TomlTree::Boolean(b) => JsonTree::Bool(b),
        TomlTree::Datetime(text) => JsonTree::Object(seq![(datetime_key(), JsonTree::String(text))]),
        TomlTree::Array(items) => JsonTree::Array(
            Seq::new(
                items.len(),
                |i: int|
                    if 0 <= i < items.len() {
                        json_of_toml(items[i])
                    } else {
                        JsonTree::Null
                    },
            ),
        ),
        TomlTree::Table(entries) => JsonTree::Object(
            Seq::new(
                entries.len(),
                |i: int|
                    if 0 <= i < entries.len() {
                        (entries[i].0, json_of_toml(entries[i].1))
                    } else {
                        (Seq::empty(), JsonTree::Null)
                    },
            ),
        ),
    }
}

/// Whether a dynamic value is represented without loss of precision: it
/// holds no null, every unsigned integer fits sixty-four signed bits and
/// every float is finite.
pub open spec fn lossless(value: JsonTree) -> bool
    decreases value,
{
    match value {
        JsonTree::Null => false,
        JsonTree::Bool(_) => true,
        JsonTree::Number(NumberModel::PosInt(u)) => u <= i64::MAX,
        JsonTree::Number(NumberModel::NegInt(_)) => true,
        JsonTree::Number(NumberModel::Float(text)) => is_finite_text(text),
        JsonTree::String(_) => true,
        JsonTree::Array(items) => forall|i: int| 0 <= i < items.len() ==> lossless(#[trigger] items[i]),
        JsonTree::Object(members) => forall|i: int|
            0 <= i < members.len() ==> lossless((#[trigger] members[i]).1),
    }
}

/// The whole number that a number is, where it is one that fits sixty-four
/// signed bits, whichever way it is held.
pub open spec fn whole_number(n: NumberModel) -> Option<int> {
    match n {
        NumberModel::PosInt(u) => if u <= i64::MAX {
            Some(u as int)
        } else {
            None
        },
        NumberModel::NegInt(i) => Some(i as int),
        NumberModel::Float(text) => match integral_float(text) {
            Some(i) => Some(i as int),
            None => None,
        },
    }
}

/// Whether two numbers are the same number: held alike, or both the same
/// whole number.
pub open spec fn same_number(a: NumberModel, b: NumberModel) -> bool {
    a == b || (whole_number(a) is Some && whole_number(a) == whole_number(b))
}

/// Whether two dynamic values are the same value: alike in shape, keys,
/// texts and truth values, with numbers compared by what they are worth.
pub open spec fn same_value(a: JsonTree, b: JsonTree) -> bool
    decreases a,
{
    match (a, b) {
        (JsonTree::Number(x), JsonTree::Number(y)) => same_number(x, y),
        (JsonTree::Array(xs), JsonTree::Array(ys)) => xs.len() == ys.len() && forall|i: int|
            0 <= i < xs.len() ==> same_value(#[trigger] xs[i], ys[i]),
        (JsonTree::Object(xs), JsonTree::Object(ys)) => xs.len() == ys.len() && forall|i: int|
            0 <= i < xs.len() ==> (#[trigger] xs[i]).0 == ys[i].0 && same_value(xs[i].1, ys[i].1),
        _ => a == b,
    }
}

/// Whether every number of a value is held in the form that decoding
/// gives: a whole number that fits sixty-four signed bits as an integer, a
/// negative one as a negative integer.
pub open spec fn plainly_held(value: JsonTree) -> bool
    decreases value,
{
    match value {
        JsonTree::Number(NumberModel::NegInt(i)) => i < 0,
        JsonTree::Number(NumberModel::Float(text)) => integral_float(text) is None,
        JsonTree::Array(items) => forall|i: int|
            0 <= i < items.len() ==> plainly_held(#[trigger] items[i]),
        JsonTree::Object(members) => forall|i: int|
            0 <= i < members.len() ==> plainly_held((#[trigger] members[i]).1),
        _ => true,
    }
}

/// Round trip: decoding the encoding of a value that is represented without
/// loss gives the same value back, numbers compared by what they are worth.
pub proof fn lemma_round_trip(value: JsonTree)
    requires
        lossless(value),
    ensures
        same_value(json_of_toml(toml_of_json(value)), value),
    decreases value,
{
    match value {
        JsonTree::Array(items) => {
            let encoded = toml_of_json(value)->Array_0;
            let back = json_of_toml(toml_of_json(value))->Array_0;
            assert forall|i: int| 0 <= i < back.len() implies same_value(
                #[trigger] back[i],
                items[i],
            ) by {
                assert(lossless(items[i]));
                lemma_round_trip(items[i]);
                assert(encoded[i] == toml_of_json(items[i]));
            }
        },
        JsonTree::Object(members) => {
            let encoded = toml_of_json(value)->Table_0;
            let back = json_of_toml(toml_of_json(value))->Object_0;
            assert forall|i: int| 0 <= i < back.len() implies (#[trigger] back[i]).0
                == members[i].0 && same_value(back[i].1, members[i].1) by {
                assert(lossless(members[i].1));
                lemma_round_trip(members[i].1);
                assert(encoded[i] == (members[i].0, toml_of_json(members[i].1)));
            }
        },
        _ => {},
    }
}

/// Round trip, to the letter: where every number is also held in the form
/// that decoding gives, the value comes back exactly.
pub proof fn lemma_round_trip_exact(value: JsonTree)
    requires
        lossless(value),
        plainly_held(value),
    ensures
        json_of_toml(toml_of_json(value)) == value,
    decreases value,
{
    match value {
        JsonTree::Array(items) => {
            let encoded = toml_of_json(value)->Array_0;
            let back = json_of_toml(toml_of_json(value))->Array_0;
            assert forall|i: int| 0 <= i < items.len() implies back[i] == items[i] by {
                assert(lossless(items[i]));
                assert(plainly_held(items[i]));
                lemma_round_trip_exact(items[i]);
                assert(encoded[i] == toml_of_json(items[i]));
            }
            assert(back =~= items);
        },
        JsonTree::Object(members) => {
            let encoded = toml_of_json(value)->Table_0;
            let back = json_of_toml(toml_of_json(value))->Object_0;
            assert forall|i: int| 0 <= i < members.len() implies back[i] == members[i] by {
                assert(lossless(members[i].1));
                assert(plainly_held(members[i].1));
                lemma_round_trip_exact(members[i].1);
                assert(encoded[i] == (members[i].0, toml_of_json(members[i].1)));
            }
            assert(back =~= members);
        },
        _ => {},
    }
}

/// Encoding and decoding keep every mapping a mapping: the image of a
/// well-formed value is well formed, in both directions.
pub proof fn lemma_codec_keeps_well_formed(value: JsonTree, tree: TomlTree)
    ensures
        value.well_formed() ==> toml_of_json(value).well_formed(),
        tree.well_formed() ==> json_of_toml(tree).well_formed(),
{
    if value.well_formed() {
        lemma_encode_well_formed(value);
    }
    if tree.well_formed() {
        lemma_decode_well_formed(tree);
    }
}

proof fn lemma_encode_well_formed(value: JsonTree)
    requires
        json_well_formed(value),
    ensures
        toml_well_formed(toml_of_json(value)),
    decreases value,
{
    match value {
        JsonTree::Array(items) => {
            let image = toml_of_json(value)->Array_0;
            assert forall|i: int| 0 <= i < image.len() implies toml_well_formed(
                #[trigger] image[i],
            ) by {
                assert(json_well_formed(items[i]));
                lemma_encode_well_formed(items[i]);
            }
        },
        JsonTree::Object(members) => {
            let image = toml_of_json(value)->Table_0;
            assert(crate::assoc::keys_of(image) =~= crate::assoc::keys_of(members));
            assert forall|i: int| 0 <= i < image.len() implies toml_well_formed(
                (#[trigger] image[i]).1,
            ) by {
                assert(json_well_formed(members[i].1));
                lemma_encode_well_formed(members[i].1);
            }
        },
        _ => {},
    }
}

proof fn lemma_decode_well_formed(tree: TomlTree)
    requires
        toml_well_formed(tree),
    ensures
        json_well_formed(json_of_toml(tree)),
    decreases tree,
{
    match tree {
        TomlTree::Array(items) => {
            let image = json_of_toml(tree)->Array_0;
            assert forall|i: int| 0 <= i < image.len() implies json_well_formed(
                #[trigger] image[i],
            ) by {
                assert(toml_well_formed(items[i]));
                lemma_decode_well_formed(items[i]);
            }
        },
        TomlTree::Table(entries) => {
            let image = json_of_toml(tree)->Object_0;
            assert(crate::assoc::keys_of(image) =~= crate::assoc::keys_of(entries));
            assert forall|i: int| 0 <= i < image.len() implies json_well_formed(
                (#[trigger] image[i]).1,
            ) by {
                assert(toml_well_formed(entries[i].1));
                lemma_decode_well_formed(entries[i].1);
            }
        },
        TomlTree::Datetime(text) => {
            let members = seq![(datetime_key(), JsonTree::String(text))];
            assert(members.len() == 1);
            assert(json_well_formed(members[0].1));
            assert(crate::assoc::keys_of(members).len() == 1);
            assert(json_well_formed(JsonTree::Object(members)));
        },
        _ => {},
    }
}

/// Encodes a number: an integer where it has no fractional part and fits
/// sixty-four signed bits, however it is held; else a float.
pub fn number_to_toml(n: &JsonNumber) -> (r: TomlValue)
    ensures
        r@ == toml_of_number(n@),
{
    match n {
        JsonNumber::PosInt(u) => {
            if *u <= 0x7fff_ffff_ffff_ffffu64 {
                TomlValue::Integer(*u as i64)
            } else {
                match unsigned_as_float(*u) {
                    Some(text) => TomlValue::Float(text),
                    None => TomlValue::String(write_unsigned(*u)),
                }
            }
        },
        JsonNumber::NegInt(i) => TomlValue::Integer(*i),
        JsonNumber::Float(text) => match parse_whole(text.as_str()) {
            Some(i) => TomlValue::Integer(i),
            None => TomlValue::Float(text.clone()),
        },
    }
}

/// Encodes a dynamic value into the structured format, member by member.
pub fn json_to_toml(value: &JsonValue) -> (r: TomlValue)
    ensures
        r@ == toml_of_json(value@),
    decreases value,
{
    match value {
        JsonValue::Null => TomlValue::String(String::new()),
        JsonValue::Bool(b) => TomlValue::Boolean(*b),
        JsonValue::Number(n) => number_to_toml(n),
        JsonValue::String(s) => TomlValue::String(s.clone()),
        JsonValue::Array(items) => {
            let mut out: Vec<TomlValue> = Vec::new();
            let mut i: usize = 0;
            while i < items.len()
                invariant
                    i <= items.len(),
                    out.len() == i,
                    forall|j: int| 0 <= j < i ==> out@[j]@ == toml_of_json(items@[j]@),
                    value is Array,
                    value->Array_0 == *items,
                decreases items.len() - i,
            {
                assert(decreases_to!(value => value->Array_0));
                assert(decreases_to!(items => items[i as int]));
                out.push(json_to_toml(&items[i]));
                i += 1;
            }
            proof {
                lemma_json_array_view(*items);
                lemma_toml_array_view(out);
                assert(toml_items(out@) =~= toml_of_json(value@)->Array_0);
            }
            TomlValue::Array(out)
        },
        JsonValue::Object(members) => {
            let mut out: Vec<(String, TomlValue)> = Vec::new();
            let mut i: usize = 0;
            while i < members.len()
                invariant
                    i <= members.len(),
                    out.len() == i,
                    forall|j: int|
                        0 <= j < i ==> out@[j].0@ == members@[j].0@ && out@[j].1@ == toml_of_json(
                            members@[j].1@,
                        ),
                    value is Object,
                    value->Object_0 == *members,
                decreases members.len() - i,
            {
                assert(decreases_to!(value => value->Object_0));
                assert(decreases_to!(members => members[i as int]));
                let key = members[i].0.clone();
                let image = json_to_toml(&members[i].1);
                out.push((key, image));
                i += 1;
            }
            proof {
                lemma_json_object_view(*members);
                lemma_toml_table_view(out);
                assert(model(out@) =~= toml_of_json(value@)->Table_0);
            }
            TomlValue::Table(out)
        },
    }
}

/// Whether the text of a float names a finite value.
pub fn float_is_finite(text: &str) -> (r: bool)
    ensures
        r == is_finite_text(text@),
{
    !same(text, "NaN") && !same(text, "inf") && !same(text, "-inf")
}

/// Projects a tree onto dynamic values. An object keeps the order of the
/// table that it stands for.
pub fn toml_to_json(value: &TomlValue) -> (r: JsonValue)
    ensures
        r@ == json_of_toml(value@),
    decreases value,
{
    match value {
        TomlValue::String(s) => JsonValue::String(s.clone()),
        TomlValue::Integer(i) => {
            if *i >= 0 {
                JsonValue::Number(JsonNumber::PosInt(*i as u64))
            } else {
                JsonValue::Number(JsonNumber::NegInt(*i))
            }
        },
        TomlValue::Float(text) => {
            if float_is_finite(text.as_str()) {
                JsonValue::Number(JsonNumber::Float(text.clone()))
            } else {
                JsonValue::Null
            }
        },
        TomlValue::Boolean(b) => JsonValue::Bool(*b),
        TomlValue::Datetime(text) => {
            let mut members: Vec<(String, JsonValue)> = Vec::new();
            members.push(("$__toml_private_datetime".to_owned(), JsonValue::String(text.clone())));
            proof {
                lemma_json_object_view(members);
                assert(json_members(members@) =~= seq![
                    (datetime_key(), JsonTree::String(text@)),
                ]);
            }
            JsonValue::Object(members)
        },
        TomlValue::Array(items) => {
            let mut out: Vec<JsonValue> = Vec::new();
            let mut i: usize = 0;
            while i < items.len()
                invariant
                    i <= items.len(),
                    out.len() == i,
                    forall|j: int| 0 <= j < i ==> out@[j]@ == json_of_toml(items@[j]@),
                    value is Array,
                    value->Array_0 == *items,
                decreases items.len() - i,
            {
                assert(decreases_to!(value => value->Array_0));
                assert(decreases_to!(items => items[i as int]));
                out.push(toml_to_json(&items[i]));
                i += 1;
            }
            proof {
                lemma_toml_array_view(*items);
                lemma_json_array_view(out);
                assert(json_items(out@) =~= json_of_toml(value@)->Array_0);
            }
            JsonValue::Array(out)
        },
        TomlValue::Table(entries) => {
            let mut out: Vec<(String, JsonValue)> = Vec::new();
            let mut i: usize = 0;
            while i < entries.len()
                invariant
                    i <= entries.len(),
                    out.len() == i,
                    forall|j: int|
                        0 <= j < i ==> out@[j].0@ == entries@[j].0@ && out@[j].1@ == json_of_toml(
                            entries@[j].1@,
                        ),
                    value is Table,
                    value->Table_0 == *entries,
                decreases entries.len() - i,
            {
                assert(decreases_to!(value => value->Table_0));
                assert(decreases_to!(entries => entries[i as int]));
                let key = entries[i].0.clone();
                let image = toml_to_json(&entries[i].1);
                out.push((key, image));
                i += 1;
            }
            proof {
                lemma_toml_table_view(*entries);
                lemma_json_object_view(out);
                assert(json_members(out@) =~= json_of_toml(value@)->Object_0);
            }
            JsonValue::Object(out)
        },
    }
}

} // verus!
