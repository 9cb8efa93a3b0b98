//! A JSON document as plain values: the parts of a parsed `serde_json::Value`
//! that the library reads, with the lookups `serde_json` offers on it.

use vstd::prelude::*;

verus! {

/// A JSON number. Only the integral cases are kept; the value of a
/// fractional number is never read.
#[derive(Clone, Copy, Debug)]
pub enum JsonNumber {
    PosInt(u64),
    NegInt(i64),
    Float,
}

/// A JSON value. An object holds each key once, its members in the order they
/// were given (a `serde_json` map gives them sorted by key).
#[derive(Debug)]
pub enum JsonValue {
    Null,
    Bool(bool),
    Number(JsonNumber),
    Str(String),
    Array(Vec<JsonValue>),
    Object(Vec<(String, JsonValue)>),
}

/// The value of the first member named `key` among `members`.
pub open spec fn members_lookup(members: Seq<(String, JsonValue)>, key: Seq<char>) -> Option<JsonValue>
    decreases members.len(),
{
    if members.len() == 0 {
        None
    } else {
        match members_lookup(members.drop_last(), key) {
            Some(v) => Some(v),
            None => if members.last().0@ == key {
                Some(members.last().1)
            } else {
                None
            },
        }
    }
}

/// `Value::get(key)`: the member `key` of an object; nothing for other values.
pub open spec fn spec_get(v: JsonValue, key: Seq<char>) -> Option<JsonValue> {
    match v {
        JsonValue::Object(members) => members_lookup(members@, key),
        _ => None,
    }
}

/// `Value::as_str`: the text of a string value.
pub open spec fn spec_as_str(v: JsonValue) -> Option<Seq<char>> {
    match v {
        JsonValue::Str(s) => Some(s@),
        _ => None,
    }
}

/// `Value::as_u64`: the value of a non-negative integer.
pub open spec fn spec_as_u64(v: JsonValue) -> Option<u64> {
    match v {
        JsonValue::Number(JsonNumber::PosInt(n)) => Some(n),
        _ => None,
    }
}

/// The text of the string member `key` of `v` (`v.get(key).and_then(as_str)`).
pub open spec fn spec_get_str(v: JsonValue, key: Seq<char>) -> Option<Seq<char>> {
    match spec_get(v, key) {
        Some(m) => spec_as_str(m),
        None => None,
    }
}

impl JsonValue {
    /// `Value::get(key)`.
    pub fn get(&self, key: &str) -> (r: Option<&JsonValue>)
        ensures
            r matches Some(m) ==> spec_get(*self, key@) == Some(*m),
            r is None ==> spec_get(*self, key@) is None,
    {
        match self {
            JsonValue::Object(members) => {
                let mut found: Option<&JsonValue> = None;
                let mut i: usize = 0;
                while i < members.len()
                    invariant
                        i <= members@.len(),
                        found matches Some(m) ==> members_lookup(members@.take(i as int), key@)
                            == Some(*m),
                        found is None ==> members_lookup(members@.take(i as int), key@) is None,
                    decreases members@.len() - i,
                {
                    assert(members@.take(i + 1).drop_last() =~= members@.take(i as int));
                    if found.is_none() && crate::text::str_eq(members[i].0.as_str(), key) {
                        found = Some(&members[i].1);
                    }
                    i += 1;
                }
                assert(members@.take(members@.len() as int) =~= members@);
                found
            },
            _ => None,
        }
    }

    /// `Value::as_str`.
    pub fn as_str(&self) -> (r: Option<&str>)
        ensures
            r matches Some(s) ==> spec_as_str(*self) == Some(s@),
            r is None ==> spec_as_str(*self) is None,
    {
        match self {
            JsonValue::Str(s) => Some(s.as_str()),
            _ => None,
        }
    }

    /// `Value::as_array`.
    pub fn as_array(&self) -> (r: Option<&Vec<JsonValue>>)
        ensures
            r matches Some(a) ==> *self == JsonValue::Array(*a),
            r is None ==> !(*self is Array),
    {
        match self {
            JsonValue::Array(a) => Some(a),
            _ => None,
        }
    }

    /// `Value::as_u64`.
    pub fn as_u64(&self) -> (r: Option<u64>)
        ensures
            r == spec_as_u64(*self),
    {
        match self {
            JsonValue::Number(JsonNumber::PosInt(n)) => Some(*n),
            _ => None,
        }
    }

    /// `v.get(key).and_then(|x| x.as_str())`.
    pub fn get_str(&self, key: &str) -> (r: Option<&str>)
        ensures
            r matches Some(s) ==> spec_get_str(*self, key@) == Some(s@),
            r is None ==> spec_get_str(*self, key@) is None,
    {
        match self.get(key) {
            Some(m) => m.as_str(),
            None => None,
        }
    }
}

} // verus!
