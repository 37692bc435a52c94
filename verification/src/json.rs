//! The document model: a JSON-like tree of plain values, plus verified field
//! lookup over objects.
//!
//! The decoder consumes this tree; materializing it from bytes or a file is an
//! external collaborator's job. Object fields are kept as an ordered list of
//! key/value pairs; lookup returns the first binding of a key.

use vstd::prelude::*;

verus! {

/// One node of a parsed hierarchical document.
#[derive(Debug)]
pub enum JsonValue {
    Null,
    Bool(bool),
    /// Numbers in the document are unsigned integers (sizes, counts, ordinals).
    Num(u64),
    Str(String),
    Arr(Vec<JsonValue>),
    Obj(Vec<(String, JsonValue)>),
}

/// The first value bound to `key`, if any.
pub open spec fn lookup_field(fields: Seq<(String, JsonValue)>, key: Seq<char>) -> Option<JsonValue>
    decreases fields.len(),
{
    if fields.len() == 0 {
        None
    } else if fields[0].0@ == key {
        Some(fields[0].1)
    } else {
        lookup_field(fields.drop_first(), key)
    }
}

/// The string payload of field `key`, if present and a string.
pub open spec fn str_field(fields: Seq<(String, JsonValue)>, key: Seq<char>) -> Option<Seq<char>> {
    match lookup_field(fields, key) {
        Some(JsonValue::Str(s)) => Some(s@),
        _ => None,
    }
}

/// The boolean payload of field `key`, if present and a boolean.
pub open spec fn bool_field(fields: Seq<(String, JsonValue)>, key: Seq<char>) -> Option<bool> {
    match lookup_field(fields, key) {
        Some(JsonValue::Bool(b)) => Some(b),
        _ => None,
    }
}

/// The numeric payload of field `key`, if present and a number.
pub open spec fn u64_field(fields: Seq<(String, JsonValue)>, key: Seq<char>) -> Option<u64> {
    match lookup_field(fields, key) {
        Some(JsonValue::Num(n)) => Some(n),
        _ => None,
    }
}

/// The numeric payload of field `key`, if present, a number, and within `u32`.
pub open spec fn u32_field(fields: Seq<(String, JsonValue)>, key: Seq<char>) -> Option<u32> {
    match u64_field(fields, key) {
        Some(n) => if n <= u32::MAX as u64 {
            Some(n as u32)
        } else {
            None
        },
        None => None,
    }
}

/// The element list of field `key`, if present and an array.
pub open spec fn arr_field(fields: Seq<(String, JsonValue)>, key: Seq<char>) -> Option<
    Seq<JsonValue>,
> {
    match lookup_field(fields, key) {
        Some(JsonValue::Arr(a)) => Some(a@),
        _ => None,
    }
}

/// The field list of field `key`, if present and an object.
pub open spec fn obj_field(fields: Seq<(String, JsonValue)>, key: Seq<char>) -> Option<
    Seq<(String, JsonValue)>,
> {
    match lookup_field(fields, key) {
        Some(JsonValue::Obj(o)) => Some(o@),
        _ => None,
    }
}

/// An optional `u32` field: `None` in the outer option means the field is
/// present but not an in-range number; absent and `null` both mean "no value".
pub open spec fn opt_u32_field(fields: Seq<(String, JsonValue)>, key: Seq<char>) -> Option<
    Option<u32>,
> {
    match lookup_field(fields, key) {
        None => Some(None),
        Some(JsonValue::Null) => Some(None),
        Some(JsonValue::Num(n)) => if n <= u32::MAX as u64 {
            Some(Some(n as u32))
        } else {
            None
        },
        Some(_) => None,
    }
}

/// An optional boolean field: `None` in the outer option means the field is
/// present but not a boolean; absent and `null` both mean "no value".
pub open spec fn opt_bool_field(fields: Seq<(String, JsonValue)>, key: Seq<char>) -> Option<
    Option<bool>,
> {
    match lookup_field(fields, key) {
        None => Some(None),
        Some(JsonValue::Null) => Some(None),
        Some(JsonValue::Bool(b)) => Some(Some(b)),
        Some(_) => None,
    }
}

/// Whether two string slices hold the same characters.
pub fn str_eq(a: &str, b: &str) -> (r: bool)
    ensures
        r == (a@ == b@),
{
    let owned_a: String = a.to_owned();
    let owned_b: String = b.to_owned();
    owned_a == owned_b
}

/// First binding of `key` among `fields`, as `lookup_field` describes it.
pub fn get_field<'a>(fields: &'a Vec<(String, JsonValue)>, key: &str) -> (r: Option<
    &'a JsonValue,
>)
    ensures
        match r {
            Some(v) => lookup_field(fields@, key@) == Some(*v),
            None => lookup_field(fields@, key@) is None,
        },
{
    proof {
        assert(fields@.skip(0) =~= fields@);
    }
    let mut i: usize = 0;
    while i < fields.len()
        invariant
            0 <= i <= fields@.len(),
            lookup_field(fields@, key@) == lookup_field(fields@.skip(i as int), key@),
        decreases fields@.len() - i,
    {
        if str_eq(fields[i].0.as_str(), key) {
            proof {
                assert(fields@.skip(i as int)[0] == fields@[i as int]);
            }
            return Some(&fields[i].1);
        }
        proof {
            assert(fields@.skip(i as int).drop_first() =~= fields@.skip(i as int + 1));
        }
        i = i + 1;
    }
    None
}

/// The string field `key`, if present and a string.
pub fn get_str<'a>(fields: &'a Vec<(String, JsonValue)>, key: &str) -> (r: Option<&'a String>)
    ensures
        match r {
            Some(s) => lookup_field(fields@, key@) == Some(JsonValue::Str(*s)),
            None => str_field(fields@, key@) is None,
        },
{
    match get_field(fields, key) {
        Some(JsonValue::Str(s)) => Some(s),
        _ => None,
    }
}

/// The boolean field `key`, if present and a boolean.
pub fn get_bool(fields: &Vec<(String, JsonValue)>, key: &str) -> (r: Option<bool>)
    ensures
        r == bool_field(fields@, key@),
{
    match get_field(fields, key) {
        Some(JsonValue::Bool(b)) => Some(*b),
        _ => None,
    }
}

/// The numeric field `key`, if present and a number.
pub fn get_u64(fields: &Vec<(String, JsonValue)>, key: &str) -> (r: Option<u64>)
    ensures
        r == u64_field(fields@, key@),
{
    match get_field(fields, key) {
        Some(JsonValue::Num(n)) => Some(*n),
        _ => None,
    }
}

/// The numeric field `key`, if present, a number, and within `u32`.
pub fn get_u32(fields: &Vec<(String, JsonValue)>, key: &str) -> (r: Option<u32>)
    ensures
        r == u32_field(fields@, key@),
{
    match get_field(fields, key) {
        Some(JsonValue::Num(n)) => {
            if *n <= u32::MAX as u64 {
                Some(*n as u32)
            } else {
                None
            }
        },
        _ => None,
    }
}

/// The optional `u32` field `key`; see `opt_u32_field`.
pub fn get_opt_u32(fields: &Vec<(String, JsonValue)>, key: &str) -> (r: Option<Option<u32>>)
    ensures
        r == opt_u32_field(fields@, key@),
{
    match get_field(fields, key) {
        None => Some(None),
        Some(JsonValue::Null) => Some(None),
        Some(JsonValue::Num(n)) => {
            if *n <= u32::MAX as u64 {
                Some(Some(*n as u32))
            } else {
                None
            }
        },
        Some(_) => None,
    }
}

/// The optional boolean field `key`; see `opt_bool_field`.
pub fn get_opt_bool(fields: &Vec<(String, JsonValue)>, key: &str) -> (r: Option<Option<bool>>)
    ensures
        r == opt_bool_field(fields@, key@),
{
    match get_field(fields, key) {
        None => Some(None),
        Some(JsonValue::Null) => Some(None),
        Some(JsonValue::Bool(b)) => Some(Some(*b)),
        Some(_) => None,
    }
}

/// The array field `key`, if present and an array.
pub fn get_arr<'a>(fields: &'a Vec<(String, JsonValue)>, key: &str) -> (r: Option<
    &'a Vec<JsonValue>,
>)
    ensures
        match r {
            Some(a) => arr_field(fields@, key@) == Some(a@),
            None => arr_field(fields@, key@) is None,
        },
{
    match get_field(fields, key) {
        Some(JsonValue::Arr(a)) => Some(a),
        _ => None,
    }
}

/// The object field `key`, if present and an object.
pub fn get_obj<'a>(fields: &'a Vec<(String, JsonValue)>, key: &str) -> (r: Option<
    &'a Vec<(String, JsonValue)>,
>)
    ensures
        match r {
            Some(o) => obj_field(fields@, key@) == Some(o@),
            None => obj_field(fields@, key@) is None,
        },
{
    match get_field(fields, key) {
        Some(JsonValue::Obj(o)) => Some(o),
        _ => None,
    }
}

} // verus!
