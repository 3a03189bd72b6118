//! A JSON value as the library reads it, and reading fields out of it.

use vstd::prelude::*;
use crate::text::{chars_of, in_set, split_by, split_set, views};

verus! {

/// A JSON value. A number keeps the text it is written with and its value
/// as a signed and as an unsigned 64-bit integer, where it is one that
/// fits; an object keeps its entries in order.
#[derive(Debug)]
pub enum JsonValue {
    Null,
    Bool(bool),
    Number { text: String, integer: Option<i64>, unsigned: Option<u64> },
    Str(String),
    Array(Vec<JsonValue>),
    Object(Vec<(String, JsonValue)>),
}

/// The value of the first entry named `key`.
pub open spec fn field(entries: Seq<(String, JsonValue)>, key: Seq<char>) -> Option<JsonValue>
    decreases entries.len(),
{
    if entries.len() == 0 {
        None
    } else if entries[0].0@ == key {
        Some(entries[0].1)
    } else {
        field(entries.drop_first(), key)
    }
}

/// The member `key` of an object; nothing for any other value.
pub open spec fn get(v: JsonValue, key: Seq<char>) -> Option<JsonValue> {
    match v {
        JsonValue::Object(entries) => field(entries@, key),
        _ => None,
    }
}

pub open spec fn get_in(v: Option<JsonValue>, key: Seq<char>) -> Option<JsonValue> {
    match v {
        Some(x) => get(x, key),
        None => None,
    }
}

/// The text of a string.
pub open spec fn str_of(v: JsonValue) -> Option<Seq<char>> {
    match v {
        JsonValue::Str(s) => Some(s@),
        _ => None,
    }
}

pub open spec fn str_in(v: Option<JsonValue>) -> Option<Seq<char>> {
    match v {
        Some(x) => str_of(x),
        None => None,
    }
}

/// The items of an array.
pub open spec fn array_of(v: JsonValue) -> Option<Seq<JsonValue>> {
    match v {
        JsonValue::Array(items) => Some(items@),
        _ => None,
    }
}

pub open spec fn array_in(v: Option<JsonValue>) -> Option<Seq<JsonValue>> {
    match v {
        Some(x) => array_of(x),
        None => None,
    }
}

/// A boolean, or an integer read as one (non-zero is true).
pub open spec fn bool_of(v: JsonValue) -> Option<bool> {
    match v {
        JsonValue::Bool(b) => Some(b),
        JsonValue::Number { integer: Some(n), .. } => Some(n != 0),
        _ => None,
    }
}

/// The value of an integer that fits in 64 bits.
pub open spec fn int_of(v: JsonValue) -> Option<i64> {
    match v {
        JsonValue::Number { integer, .. } => integer,
        _ => None,
    }
}

/// An object has a member `key`.
fn field_index(entries: &Vec<(String, JsonValue)>, key: &str) -> (r: Option<usize>)
    ensures
        match r {
            Some(i) => i < entries.len() && field(entries@, key@) == Some(entries@[i as int].1),
            None => field(entries@, key@) is None,
        },
{
    let k = chars_of(key);
    let mut i: usize = 0;
    proof {
        assert(entries@.skip(0) =~= entries@);
    }
    while i < entries.len()
        invariant
            i <= entries.len(),
            k@ == key@,
            field(entries@, key@) == field(entries@.skip(i as int), key@),
        decreases entries.len() - i,
    {
        proof {
            assert(entries@.skip(i as int).drop_first() =~= entries@.skip(i + 1));
            assert(entries@.skip(i as int)[0] == entries@[i as int]);
        }
        if crate::text::chars_eq(&chars_of(entries[i].0.as_str()), &k) {
            return Some(i);
        }
        i = i + 1;
    }
    None
}

/// The member `key` of `v`, when `v` is an object that has it.
pub fn json_get<'a>(v: &'a JsonValue, key: &str) -> (r: Option<&'a JsonValue>)
    ensures
        match r {
            Some(x) => get(*v, key@) == Some(*x),
            None => get(*v, key@) is None,
        },
{
    match v {
        JsonValue::Object(entries) => match field_index(entries, key) {
            Some(i) => Some(&entries[i].1),
            None => None,
        },
        _ => None,
    }
}

/// The text of `v`, when it is a string.
pub fn json_str<'a>(v: &'a JsonValue) -> (r: Option<&'a String>)
    ensures
        match r {
            Some(s) => str_of(*v) == Some(s@),
            None => str_of(*v) is None,
        },
{
    match v {
        JsonValue::Str(s) => Some(s),
        _ => None,
    }
}

/// The items of `v`, when it is an array.
pub fn json_array<'a>(v: &'a JsonValue) -> (r: Option<&'a Vec<JsonValue>>)
    ensures
        match r {
            Some(items) => array_of(*v) == Some(items@),
            None => array_of(*v) is None,
        },
{
    match v {
        JsonValue::Array(items) => Some(items),
        _ => None,
    }
}

/// The text of the member `key`, when it is a string.
pub fn json_get_str<'a>(v: &'a JsonValue, key: &str) -> (r: Option<&'a String>)
    ensures
        match r {
            Some(s) => str_in(get(*v, key@)) == Some(s@),
            None => str_in(get(*v, key@)) is None,
        },
{
    match json_get(v, key) {
        Some(x) => json_str(x),
        None => None,
    }
}

/// `v` read as a boolean: a boolean, or an integer (non-zero is true).
pub fn json_bool(v: &JsonValue) -> (r: Option<bool>)
    ensures
        r == bool_of(*v),
{
    match v {
        JsonValue::Bool(b) => Some(*b),
        JsonValue::Number { integer: Some(n), .. } => Some(*n != 0),
        _ => None,
    }
}

/// `v` as a 64-bit integer.
pub fn json_int(v: &JsonValue) -> (r: Option<i64>)
    ensures
        r == int_of(*v),
{
    match v {
        JsonValue::Number { integer, .. } => *integer,
        _ => None,
    }
}

// ── Dotted paths ────────────────────────────────────────────────────────────

/// The value reached from `v` by following the members `segs`.
pub open spec fn at_segments(v: JsonValue, segs: Seq<Seq<char>>) -> Option<JsonValue>
    decreases segs.len(),
{
    if segs.len() == 0 {
        Some(v)
    } else {
        match get(v, segs[0]) {
            Some(c) => at_segments(c, segs.drop_first()),
            None => None,
        }
    }
}

/// The value at a dotted path such as `note_card.cover.url`.
pub open spec fn at_path(v: JsonValue, path: Seq<char>) -> Option<JsonValue> {
    at_segments(v, split_by(path, in_set(seq!['.'])))
}

/// The value at the dotted path `path` of `root`.
pub fn get_path<'a>(root: &'a JsonValue, path: &str) -> (r: Option<&'a JsonValue>)
    ensures
        match r {
            Some(x) => at_path(*root, path@) == Some(*x),
            None => at_path(*root, path@) is None,
        },
{
    let mut dot: Vec<char> = Vec::new();
    dot.push('.');
    proof {
        assert(dot@ =~= seq!['.']);
    }
    let segs = split_set(&chars_of(path), &dot);
    let ghost sv = views(segs@);
    let mut current: &JsonValue = root;
    let mut i: usize = 0;
    proof {
        assert(sv.skip(0) =~= sv);
    }
    while i < segs.len()
        invariant
            i <= segs.len(),
            sv == views(segs@),
            sv == split_by(path@, in_set(seq!['.'])),
            at_path(*root, path@) == at_segments(*current, sv.skip(i as int)),
        decreases segs.len() - i,
    {
        proof {
            assert(sv.skip(i as int).drop_first() =~= sv.skip(i + 1));
            assert(sv.skip(i as int)[0] == segs@[i as int]@);
        }
        let seg = crate::text::string_of(&segs[i]);
        match json_get(current, seg.as_str()) {
            Some(next) => {
                current = next;
            },
            None => {
                return None;
            },
        }
        i = i + 1;
    }
    proof {
        assert(sv.skip(segs.len() as int) =~= Seq::<Seq<char>>::empty());
    }
    Some(current)
}

/// The value of a non-negative integer that fits in 64 bits.
pub open spec fn unsigned_of(v: JsonValue) -> Option<u64> {
    match v {
        JsonValue::Number { unsigned, .. } => unsigned,
        _ => None,
    }
}

/// `v` as an unsigned 64-bit integer.
pub fn json_u64(v: &JsonValue) -> (r: Option<u64>)
    ensures
        r == unsigned_of(*v),
{
    match v {
        JsonValue::Number { unsigned, .. } => *unsigned,
        _ => None,
    }
}

/// The item at `index` of an array.
pub open spec fn item_at(v: JsonValue, index: int) -> Option<JsonValue> {
    match v {
        JsonValue::Array(items) => if 0 <= index < items.len() {
            Some(items@[index])
        } else {
            None
        },
        _ => None,
    }
}

pub fn json_item<'a>(v: &'a JsonValue, index: usize) -> (r: Option<&'a JsonValue>)
    ensures
        match r {
            Some(x) => item_at(*v, index as int) == Some(*x),
            None => item_at(*v, index as int) is None,
        },
{
    match v {
        JsonValue::Array(items) => if index < items.len() {
            Some(&items[index])
        } else {
            None
        },
        _ => None,
    }
}

} // verus!
