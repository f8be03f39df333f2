//! A model of decoded JSON documents, and the lookups that the video
//! sources make in them (`get`, `as_str`, `as_u64`, `as_array`).
use vstd::prelude::*;
use crate::text::{owned, str_eq};

verus! {

/// A decoded JSON value.
pub enum JsonValue {
    Null,
    Bool(bool),
    Number(JsonNumber),
    Str(String),
    Array(Vec<JsonValue>),
    /// The members of an object, each key once.
    Object(Vec<(String, JsonValue)>),
}

/// What the video sources read of a JSON number.
#[derive(Debug, Clone, Copy)]
pub struct JsonNumber {
    /// The number, when it is an integer in the range of `u64`.
    pub as_u64: Option<u64>,
    /// The number as a float, converted with `as u64`: its whole part,
    /// 0 for negative numbers, `u64::MAX` when above that.
    pub whole: u64,
}

/// The member `key` of an object (the first one, if there were several).
pub open spec fn member(entries: Seq<(String, JsonValue)>, key: Seq<char>) -> Option<JsonValue>
    decreases entries.len(),
{
    if entries.len() == 0 {
        None
    } else if entries[0].0@ == key {
        Some(entries[0].1)
    } else {
        member(entries.drop_first(), key)
    }
}

/// `Value::get`: the member `key` of `v`, when `v` is an object that has it.
pub open spec fn json_get(v: JsonValue, key: Seq<char>) -> Option<JsonValue> {
    match v {
        JsonValue::Object(entries) => member(entries@, key),
        _ => None,
    }
}

/// `Value::as_str`.
pub open spec fn json_str(v: JsonValue) -> Option<Seq<char>> {
    match v {
        JsonValue::Str(s) => Some(s@),
        _ => None,
    }
}

/// `Value::as_u64`.
pub open spec fn json_u64(v: JsonValue) -> Option<u64> {
    match v {
        JsonValue::Number(n) => n.as_u64,
        _ => None,
    }
}

/// `Value::as_f64` followed by `as u64`.
pub open spec fn json_whole(v: JsonValue) -> Option<u64> {
    match v {
        JsonValue::Number(n) => Some(n.whole),
        _ => None,
    }
}

/// `Value::as_array`.
pub open spec fn json_array(v: JsonValue) -> Option<Seq<JsonValue>> {
    match v {
        JsonValue::Array(items) => Some(items@),
        _ => None,
    }
}

/// The string member `key` of `v`: `v.get(key).and_then(as_str)`.
pub open spec fn field_str(v: JsonValue, key: Seq<char>) -> Option<Seq<char>> {
    match json_get(v, key) {
        Some(x) => json_str(x),
        None => None,
    }
}

/// The string member `key` of `v`, or `default` when there is none.
pub open spec fn field_str_or(v: JsonValue, key: Seq<char>, default: Seq<char>) -> Seq<char> {
    match field_str(v, key) {
        Some(s) => s,
        None => default,
    }
}

/// The unsigned integer member `key` of `v`.
pub open spec fn field_u64(v: JsonValue, key: Seq<char>) -> Option<u64> {
    match json_get(v, key) {
        Some(x) => json_u64(x),
        None => None,
    }
}

/// The array member `key` of `v`.
pub open spec fn field_array(v: JsonValue, key: Seq<char>) -> Option<Seq<JsonValue>> {
    match json_get(v, key) {
        Some(x) => json_array(x),
        None => None,
    }
}

impl JsonValue {
    /// `get`: the member `key`, when `self` is an object that has it.
    pub fn get(&self, key: &str) -> (r: Option<&JsonValue>)
        ensures
            match r {
                Some(x) => json_get(*self, key@) == Some(*x),
                None => json_get(*self, key@) is None,
            },
    {
        match self {
            JsonValue::Object(entries) => {
                let mut i: usize = 0;
                assert(entries@.skip(0) == entries@);
                assert(json_get(*self, key@) == member(entries@, key@));
                while i < entries.len()
                    invariant
                        i <= entries@.len(),
                        json_get(*self, key@) == member(entries@, key@),
                        member(entries@, key@) == member(entries@.skip(i as int), key@),
                    decreases entries.len() - i,
                {
                    assert(entries@.skip(i as int)[0] == entries@[i as int]);
                    if str_eq(entries[i].0.as_str(), key) {
                        assert(member(entries@.skip(i as int), key@) == Some(entries@[i as int].1));
                        let x = &entries[i].1;
                        assert(*x == entries@[i as int].1);
                        return Some(x);
                    }
                    assert(entries@.skip(i as int).drop_first() == entries@.skip(i + 1));
                    i = i + 1;
                }
                None
            },
            _ => None,
        }
    }

    /// `as_str`.
    pub fn as_str(&self) -> (r: Option<&String>)
        ensures
            match r {
                Some(s) => json_str(*self) == Some(s@),
                None => json_str(*self) is None,
            },
    {
        match self {
            JsonValue::Str(s) => Some(s),
            _ => None,
        }
    }

    /// `as_u64`.
    pub fn as_u64(&self) -> (r: Option<u64>)
        ensures
            r == json_u64(*self),
    {
        match self {
            JsonValue::Number(n) => n.as_u64,
            _ => None,
        }
    }

    /// `as_f64` followed by `as u64`.
    pub fn as_whole(&self) -> (r: Option<u64>)
        ensures
            r == json_whole(*self),
    {
        match self {
            JsonValue::Number(n) => Some(n.whole),
            _ => None,
        }
    }

    /// `as_array`.
    pub fn as_array(&self) -> (r: Option<&Vec<JsonValue>>)
        ensures
            match r {
                Some(items) => json_array(*self) == Some(items@),
                None => json_array(*self) is None,
            },
    {
        match self {
            JsonValue::Array(items) => Some(items),
            _ => None,
        }
    }

    /// The string member `key`, as an owned string.
    pub fn field_str(&self, key: &str) -> (r: Option<String>)
        ensures
            match r {
                Some(s) => field_str(*self, key@) == Some(s@),
                None => field_str(*self, key@) is None,
            },
    {
        match self.get(key) {
            Some(x) => match x.as_str() {
                Some(s) => Some(s.clone()),
                None => None,
            },
            None => None,
        }
    }

    /// The string member `key`, or `default`.
    pub fn field_str_or(&self, key: &str, default: &str) -> (r: String)
        ensures
            r@ == field_str_or(*self, key@, default@),
    {
        match self.field_str(key) {
            Some(s) => s,
            None => owned(default),
        }
    }

    /// The unsigned integer member `key`.
    pub fn field_u64(&self, key: &str) -> (r: Option<u64>)
        ensures
            r == field_u64(*self, key@),
    {
        match self.get(key) {
            Some(x) => x.as_u64(),
            None => None,
        }
    }

    /// The array member `key`.
    pub fn field_array(&self, key: &str) -> (r: Option<&Vec<JsonValue>>)
        ensures
            match r {
                Some(items) => field_array(*self, key@) == Some(items@),
                None => field_array(*self, key@) is None,
            },
    {
        match self.get(key) {
            Some(x) => x.as_array(),
            None => None,
        }
    }
}

} // verus!
