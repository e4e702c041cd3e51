//! # JSON values
//!
//! The JSON documents that the providers answer with, as plain values: the
//! response classifiers read fields from them, and request parameters are
//! flattened from them. Turning text into a [`JsonValue`] is left to the
//! caller's JSON parser.
use vstd::prelude::*;

use crate::util::{decimal, to_decimal};

verus! {

/// A JSON value.
#[derive(Debug)]
pub enum JsonValue {
    Null,
    Bool(bool),
    /// A number: its text, and its value when it is a non-negative integer
    /// that fits in 64 bits.
    Number(String, Option<u64>),
    Str(String),
    Array(Vec<JsonValue>),
    /// Members in document order, each key once.
    Object(Vec<(String, JsonValue)>),
}

/// The value of the first member named `key`.
pub open spec fn member(fields: Seq<(String, JsonValue)>, key: Seq<char>) -> Option<JsonValue>
    decreases fields.len(),
{
    if fields.len() == 0 {
        None
    } else if fields[0].0@ == key {
        Some(fields[0].1)
    } else {
        member(fields.drop_first(), key)
    }
}

/// The member `key` of an object; `None` for other values.
pub open spec fn field(v: JsonValue, key: Seq<char>) -> Option<JsonValue> {
    match v {
        JsonValue::Object(fields) => member(fields@, key),
        _ => None,
    }
}

/// The text of the member `key` when it is a string.
pub open spec fn str_field(v: JsonValue, key: Seq<char>) -> Option<Seq<char>> {
    match field(v, key) {
        Some(JsonValue::Str(s)) => Some(s@),
        _ => None,
    }
}

/// The value of the member `key` when it is a non-negative 64-bit integer.
pub open spec fn u64_field(v: JsonValue, key: Seq<char>) -> Option<u64> {
    match field(v, key) {
        Some(JsonValue::Number(_, n)) => n,
        _ => None,
    }
}

impl JsonValue {
    /// The member `key` of an object; `None` for other values.
    pub fn get(&self, key: &str) -> (r: Option<&JsonValue>)
        ensures
            match r {
                Some(x) => field(*self, key@) == Some(*x),
                None => field(*self, key@) is None,
            },
    {
        match self {
            JsonValue::Object(fields) => {
                let mut i: usize = 0;
                assert(fields@.skip(0) =~= fields@);
                while i < fields.len()
                    invariant
                        0 <= i <= fields@.len(),
                        member(fields@, key@) == member(fields@.skip(i as int), key@),
                        field(*self, key@) == member(fields@, key@),
                    decreases fields@.len() - i,
                {
                    assert(fields@.skip(i as int).drop_first() =~= fields@.skip(i + 1));
                    assert(fields@.skip(i as int)[0] == fields@[i as int]);
                    if crate::util::str_eq(fields[i].0.as_str(), key) {
                        assert(fields@[i as int].0@ == key@);
                        assert(member(fields@.skip(i as int), key@) == Some(fields@[i as int].1));
                        return Some(&fields[i].1);
                    }
                    i = i + 1;
                }
                None
            },
            _ => None,
        }
    }

    /// The text of a string value.
    pub fn as_str(&self) -> (r: Option<&String>)
        ensures
            match *self {
                JsonValue::Str(s) => r == Some(&s),
                _ => r is None,
            },
    {
        match self {
            JsonValue::Str(s) => Some(s),
            _ => None,
        }
    }

    /// The value of a number that is a non-negative 64-bit integer.
    pub fn as_u64(&self) -> (r: Option<u64>)
        ensures
            match *self {
                JsonValue::Number(_, n) => r == n,
                _ => r is None,
            },
    {
        match self {
            JsonValue::Number(_, n) => *n,
            _ => None,
        }
    }
}

/// The text of the member `key` when it is a string.
pub fn get_str(v: &JsonValue, key: &str) -> (r: Option<String>)
    ensures
        match r {
            Some(s) => str_field(*v, key@) == Some(s@),
            None => str_field(*v, key@) is None,
        },
{
    match v.get(key) {
        Some(x) => match x.as_str() {
            Some(s) => Some(s.clone()),
            None => None,
        },
        None => None,
    }
}

} // verus!

verus! {

/// The key of a member below `prefix`: `prefix.key`, or `key` alone at the top.
pub open spec fn member_prefix(prefix: Seq<char>, key: Seq<char>) -> Seq<char> {
    if prefix.len() == 0 {
        key
    } else {
        prefix + "."@ + key
    }
}

/// The text of a scalar value.
pub open spec fn scalar_text(v: JsonValue) -> Seq<char> {
    match v {
        JsonValue::Bool(b) => if b {
            "true"@
        } else {
            "false"@
        },
        JsonValue::Number(t, _) => t@,
        JsonValue::Str(s) => s@,
        _ => "null"@,
    }
}

/// A value flattened into (key, text) pairs, one per scalar inside it: the
/// key of a member is `prefix.name`, that of the n-th array element
/// (counting from 1) `prefix.n`.
pub open spec fn flattened(v: JsonValue, prefix: Seq<char>) -> Seq<(Seq<char>, Seq<char>)>
    decreases v,
{
    match v {
        JsonValue::Array(items) => flattened_items(items@, prefix),
        JsonValue::Object(fields) => flattened_members(fields@, prefix),
        _ => seq![(prefix, scalar_text(v))],
    }
}

/// The array elements flattened in order.
pub open spec fn flattened_items(items: Seq<JsonValue>, prefix: Seq<char>) -> Seq<
    (Seq<char>, Seq<char>),
>
    decreases items,
{
    if items.len() == 0 {
        seq![]
    } else {
        flattened_items(items.drop_last(), prefix) + flattened(
            items.last(),
            prefix + "."@ + decimal(items.len() as nat),
        )
    }
}

/// The object members flattened in order.
pub open spec fn flattened_members(fields: Seq<(String, JsonValue)>, prefix: Seq<char>) -> Seq<
    (Seq<char>, Seq<char>),
>
    decreases fields,
{
    if fields.len() == 0 {
        seq![]
    } else {
        flattened_members(fields.drop_last(), prefix) + flattened(
            fields.last().1,
            member_prefix(prefix, fields.last().0@),
        )
    }
}

fn process_value(value: &JsonValue, current_prefix: &str, result: &mut Vec<(String, String)>)
    ensures
        crate::util::pair_views(final(result)@) == crate::util::pair_views(old(result)@)
            + flattened(*value, current_prefix@),
    decreases value,
{
    match value {
        JsonValue::Object(fields) => {
            let ghost start = crate::util::pair_views(result@);
            let mut i: usize = 0;
            while i < fields.len()
                invariant
                    0 <= i <= fields@.len(),
                    *value == JsonValue::Object(*fields),
                    crate::util::pair_views(result@) == start + flattened_members(
                        fields@.take(i as int),
                        current_prefix@,
                    ),
                decreases fields@.len() - i,
            {
                let key = &fields[i].0;
                let mut new_prefix = String::from_str(current_prefix);
                if !current_prefix.is_empty() {
                    new_prefix.append(".");
                }
                new_prefix.append(key.as_str());
                assert(new_prefix@ =~= member_prefix(current_prefix@, key@));
                assert(fields@.take(i + 1).drop_last() =~= fields@.take(i as int));
                proof {
                    vstd::std_specs::vec::axiom_vec_index_decreases(*fields, i as int);
                    assert(decreases_to!(*value => (*value)->Object_0));
                    assert((*value)->Object_0 == *fields);
                    assert(decreases_to!(fields@[i as int] => fields@[i as int].1));
                }
                process_value(&fields[i].1, new_prefix.as_str(), result);
                assert(start + flattened_members(fields@.take(i + 1), current_prefix@) =~= start
                    + flattened_members(fields@.take(i as int), current_prefix@) + flattened(
                    fields@[i as int].1,
                    new_prefix@,
                ));
                i = i + 1;
            }
            assert(fields@.take(fields@.len() as int) =~= fields@);
        },
        JsonValue::Array(items) => {
            let ghost start = crate::util::pair_views(result@);
            let mut i: usize = 0;
            while i < items.len()
                invariant
                    0 <= i <= items@.len(),
                    *value == JsonValue::Array(*items),
                    crate::util::pair_views(result@) == start + flattened_items(
                        items@.take(i as int),
                        current_prefix@,
                    ),
                decreases items@.len() - i,
            {
                let mut new_prefix = String::from_str(current_prefix);
                new_prefix.append(".");
                let index = to_decimal(i as u64 + 1);
                new_prefix.append(index.as_str());
                assert(items@.take(i + 1).drop_last() =~= items@.take(i as int));
                proof {
                    vstd::std_specs::vec::axiom_vec_index_decreases(*items, i as int);
                    assert(decreases_to!(*value => (*value)->Array_0));
                    assert((*value)->Array_0 == *items);
                }
                process_value(&items[i], new_prefix.as_str(), result);
                assert(start + flattened_items(items@.take(i + 1), current_prefix@) =~= start
                    + flattened_items(items@.take(i as int), current_prefix@) + flattened(
                    items@[i as int],
                    new_prefix@,
                ));
                i = i + 1;
            }
            assert(items@.take(items@.len() as int) =~= items@);
        },
        JsonValue::Null => {
            result.push((current_prefix.to_owned(), String::from_str("null")));
            assert(crate::util::pair_views(final(result)@) =~= crate::util::pair_views(old(result)@)
                + flattened(*value, current_prefix@));
        },
        JsonValue::Bool(b) => {
            let text = if *b {
                String::from_str("true")
            } else {
                String::from_str("false")
            };
            result.push((current_prefix.to_owned(), text));
            assert(crate::util::pair_views(final(result)@) =~= crate::util::pair_views(old(result)@)
                + flattened(*value, current_prefix@));
        },
        JsonValue::Number(t, _) => {
            result.push((current_prefix.to_owned(), t.clone()));
            assert(crate::util::pair_views(final(result)@) =~= crate::util::pair_views(old(result)@)
                + flattened(*value, current_prefix@));
        },
        JsonValue::Str(s) => {
            result.push((current_prefix.to_owned(), s.clone()));
            assert(crate::util::pair_views(final(result)@) =~= crate::util::pair_views(old(result)@)
                + flattened(*value, current_prefix@));
        },
    }
}

/// Flattens a JSON value into (key, text) pairs, one per scalar inside it,
/// in document order: a member's key is `prefix.name` (`name` alone at the
/// top with an empty prefix), the n-th array element's (counting from 1)
/// `prefix.n`. Null, booleans and numbers are written as in JSON.
pub fn flatten_json(value: &JsonValue, prefix: &str) -> (r: Vec<(String, String)>)
    ensures
        crate::util::pair_views(r@) == flattened(*value, prefix@),
{
    let mut result: Vec<(String, String)> = Vec::new();
    process_value(value, prefix, &mut result);
    assert(crate::util::pair_views(result@) =~= flattened(*value, prefix@));
    result
}

} // verus!
