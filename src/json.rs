//! A JSON document as the decoders read it.
use vstd::prelude::*;

verus! {

/// One JSON value. A number keeps its JSON text; an object keeps its members
/// in document order.
#[derive(Debug)]
pub enum JsonValue {
    Null,
    Bool(bool),
    Number(String),
    Str(String),
    Array(Vec<JsonValue>),
    Object(Vec<(String, JsonValue)>),
}

/// The value of the first member named `key` among `fields[i..]`.
pub open spec fn member_from(fields: Seq<(String, JsonValue)>, key: Seq<char>, i: int) -> Option<
    JsonValue,
>
    decreases fields.len() - i,
{
    if i < 0 || i >= fields.len() {
        None
    } else if fields[i].0@ == key {
        Some(fields[i].1)
    } else {
        member_from(fields, key, i + 1)
    }
}

/// The member `key` of `v`; `None` when `v` is no object or has no such member.
pub open spec fn member(v: JsonValue, key: Seq<char>) -> Option<JsonValue> {
    match v {
        JsonValue::Object(fields) => member_from(fields@, key, 0),
        _ => None,
    }
}

/// Reads an optional text member: an absent or null member is `Some(None)`, a
/// string is `Some(Some(s))`, anything else is `None` (a shape error).
pub open spec fn optional_text(m: Option<JsonValue>) -> Option<Option<String>> {
    match m {
        None => Some(None),
        Some(JsonValue::Null) => Some(None),
        Some(JsonValue::Str(s)) => Some(Some(s)),
        _ => None,
    }
}

/// Looks up the member `key` of `v`.
pub fn get_member<'a>(v: &'a JsonValue, key: &str) -> (r: Option<&'a JsonValue>)
    ensures
        match r {
            Some(x) => member(*v, key@) == Some(*x),
            None => member(*v, key@) is None,
        },
{
    match v {
        JsonValue::Object(fields) => {
            let k = key.to_owned();
            let mut i: usize = 0;
            while i < fields.len()
                invariant
                    i <= fields@.len(),
                    k@ == key@,
                    member(*v, key@) == member_from(fields@, key@, 0),
                    member_from(fields@, key@, 0) == member_from(fields@, key@, i as int),
                decreases fields@.len() - i,
            {
                if fields[i].0 == k {
                    assert(member_from(fields@, key@, i as int) == Some(fields@[i as int].1));
                    return Some(&fields[i].1);
                }
                i = i + 1;
            }
            None
        },
        _ => None,
    }
}

/// Reads the optional text member `key` of `v`, as `optional_text` says.
pub fn get_optional_text(v: &JsonValue, key: &str) -> (r: Option<Option<String>>)
    ensures
        r == optional_text(member(*v, key@)),
{
    match get_member(v, key) {
        None => Some(None),
        Some(JsonValue::Null) => Some(None),
        Some(JsonValue::Str(s)) => Some(Some(s.clone())),
        Some(_) => None,
    }
}

/// Reads the required text member `key` of `v`.
pub fn get_text(v: &JsonValue, key: &str) -> (r: Option<String>)
    ensures
        match member(*v, key@) {
            Some(JsonValue::Str(s)) => r == Some(s),
            _ => r is None,
        },
{
    match get_member(v, key) {
        Some(JsonValue::Str(s)) => Some(s.clone()),
        _ => None,
    }
}

} // verus!
