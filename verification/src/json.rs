//! The shape of what `pactl --format=json` prints, held as plain values,
//! and the few ways the helper reads it.
use vstd::prelude::*;
use crate::text::{chars_of, parse_u32, parse_u32_chars, same_str};

verus! {

/// A JSON document. A number keeps only what the helper reads of it: its
/// value when it is a non-negative integer that fits in 64 bits, else `None`.
/// An object keeps its members in order.
#[derive(Debug)]
pub enum Json {
    Null,
    Bool(bool),
    Number(Option<u64>),
    Str(String),
    Array(Vec<Json>),
    Object(Vec<(String, Json)>),
}

/// The value of the first member named `key` among `fields`.
pub open spec fn field_of(fields: Seq<(String, Json)>, key: Seq<char>) -> Option<Json>
    decreases fields.len(),
{
    if fields.len() == 0 {
        None
    } else if fields[0].0@ == key {
        Some(fields[0].1)
    } else {
        field_of(fields.drop_first(), key)
    }
}

/// The value behind an optional reference.
pub open spec fn deref(v: Option<&Json>) -> Option<Json> {
    match v {
        Some(x) => Some(*x),
        None => None,
    }
}

/// The member `key` of an object; nothing for any other value.
pub open spec fn json_get(j: Json, key: Seq<char>) -> Option<Json> {
    match j {
        Json::Object(fields) => field_of(fields@, key),
        _ => None,
    }
}

/// The text of a string value.
pub open spec fn json_text(v: Option<Json>) -> Option<Seq<char>> {
    match v {
        Some(Json::Str(s)) => Some(s@),
        _ => None,
    }
}

/// A 32-bit number read from a number (cut to its low 32 bits, as `as u32`
/// does) or from a decimal string.
pub open spec fn json_u32_of(v: Option<Json>) -> Option<u32> {
    match v {
        Some(Json::Number(Some(n))) => Some(n as u32),
        Some(Json::Str(s)) => parse_u32(s@),
        _ => None,
    }
}

/// The text of member `key`, or the empty text when it is missing or no string.
pub open spec fn prop_text(props: Json, key: Seq<char>) -> Seq<char> {
    match json_text(json_get(props, key)) {
        Some(s) => s,
        None => Seq::empty(),
    }
}

/// The elements of an array; nothing for any other value.
pub open spec fn json_items(j: Json) -> Seq<Json> {
    match j {
        Json::Array(items) => items@,
        _ => Seq::empty(),
    }
}

fn field_in<'a>(fields: &'a Vec<(String, Json)>, key: &str) -> (r: Option<&'a Json>)
    ensures
        match r {
            Some(v) => field_of(fields@, key@) == Some(*v),
            None => field_of(fields@, key@) is None,
        },
{
    let n = fields.len();
    let mut i: usize = 0;
    assert(fields@.skip(0) =~= fields@);
    while i < n
        invariant
            n == fields@.len(),
            i <= n,
            field_of(fields@, key@) == field_of(fields@.skip(i as int), key@),
        decreases n - i,
    {
        assert(fields@.skip(i as int).drop_first() =~= fields@.skip(i + 1));
        if same_str(fields[i].0.as_str(), key) {
            return Some(&fields[i].1);
        }
        i = i + 1;
    }
    None
}

/// The member `key` of an object (`Value::get` with a string index).
pub fn get<'a>(j: &'a Json, key: &str) -> (r: Option<&'a Json>)
    ensures
        match r {
            Some(v) => json_get(*j, key@) == Some(*v),
            None => json_get(*j, key@) is None,
        },
{
    match j {
        Json::Object(fields) => field_in(fields, key),
        _ => None,
    }
}

/// The text of a string value (`Value::as_str`).
pub fn as_text(v: Option<&Json>) -> (r: Option<&String>)
    ensures
        match r {
            Some(s) => json_text(deref(v)) == Some(s@),
            None => json_text(deref(v)) is None,
        },
{
    match v {
        Some(Json::Str(s)) => Some(s),
        _ => None,
    }
}

/// Reads a 32-bit number from a number or a decimal string.
pub fn json_u32(v: Option<&Json>) -> (r: Option<u32>)
    ensures
        r == json_u32_of(deref(v)),
{
    match v {
        Some(Json::Number(Some(n))) => Some(*n as u32),
        Some(Json::Str(s)) => parse_u32_chars(&chars_of(s.as_str())),
        _ => None,
    }
}

/// The text of member `key` of `props`, or empty.
pub fn prop_str(props: &Json, key: &str) -> (r: String)
    ensures
        r@ == prop_text(*props, key@),
{
    match as_text(get(props, key)) {
        Some(s) => s.clone(),
        None => String::new(),
    }
}

} // verus!
