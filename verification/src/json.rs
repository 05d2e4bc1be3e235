//! JSON values as plain data, with the lookups the metadata rules use.

use vstd::prelude::*;
use crate::seqs::{find_first, lemma_first_index};
use crate::text::str_eq;

verus! {

/// A JSON value. Object members keep their order; numbers keep their text. An object is
/// read from a parsed map, so no key occurs twice in it, and the first member with a key
/// (what `json_get` looks up) is the map's value for that key.
#[derive(Debug)]
pub enum JsonValue {
    Null,
    Bool(bool),
    Number(String),
    Str(String),
    Array(Vec<JsonValue>),
    Object(Vec<(String, JsonValue)>),
}

/// The test "this member's key is `k`".
pub open spec fn key_is(k: Seq<char>) -> spec_fn((String, JsonValue)) -> bool {
    |m: (String, JsonValue)| m.0@ == k
}

/// The value of the first member named `key`, when `v` is an object that has one.
pub open spec fn json_get(v: JsonValue, key: Seq<char>) -> Option<JsonValue> {
    match v {
        JsonValue::Object(members) => match find_first(members@, key_is(key)) {
            Some(i) => Some(members@[i].1),
            None => None,
        },
        _ => None,
    }
}

/// The text of `v` when it is a JSON string.
pub open spec fn json_str(v: Option<JsonValue>) -> Option<Seq<char>> {
    match v {
        Some(JsonValue::Str(s)) => Some(s@),
        _ => None,
    }
}

/// The value behind an optional reference.
pub open spec fn deref_opt<T>(r: Option<&T>) -> Option<T> {
    match r {
        Some(x) => Some(*x),
        None => None,
    }
}

impl JsonValue {
    /// The value of the member named `key`; `None` unless `self` is an object with one.
    pub fn get(&self, key: &str) -> (r: Option<&JsonValue>)
        ensures
            deref_opt(r) == json_get(*self, key@),
    {
        match self {
            JsonValue::Object(members) => {
                let mut i: usize = 0;
                while i < members.len()
                    invariant
                        *self == JsonValue::Object(*members),
                        i <= members@.len(),
                        forall|j: int| 0 <= j < i ==> !key_is(key@)(#[trigger] members@[j]),
                    decreases members.len() - i,
                {
                    if str_eq(members[i].0.as_str(), key) {
                        proof { lemma_first_index(members@, key_is(key@), i as int); }
                        return Some(&members[i].1);
                    }
                    i = i + 1;
                }
                proof { lemma_first_index(members@, key_is(key@), i as int); }
                None
            },
            _ => None,
        }
    }

    /// The text when `self` is a JSON string.
    pub fn as_str(&self) -> (r: Option<&String>)
        ensures
            match deref_opt(r) {
                Some(s) => json_str(Some(*self)) == Some(s@),
                None => json_str(Some(*self)) is None,
            },
    {
        match self {
            JsonValue::Str(s) => Some(s),
            _ => None,
        }
    }

    /// The value when `self` is a JSON boolean.
    pub fn as_bool(&self) -> (r: Option<bool>)
        ensures
            r == (match *self {
                JsonValue::Bool(b) => Some(b),
                _ => None::<bool>,
            }),
    {
        match self {
            JsonValue::Bool(b) => Some(*b),
            _ => None,
        }
    }

    /// The value of the member named `key`, taken out of `self`; `null` when `self` is
    /// not an object with such a member.
    pub fn take_field(self, key: &str) -> (r: JsonValue)
        ensures
            r == (match json_get(self, key@) {
                Some(v) => v,
                None => JsonValue::Null,
            }),
    {
        match self {
            JsonValue::Object(members) => {
                let ghost orig = members@;
                let mut members = members;
                let mut i: usize = 0;
                while i < members.len()
                    invariant
                        members@ == orig,
                        self == JsonValue::Object(members),
                        i <= members@.len(),
                        forall|j: int| 0 <= j < i ==> !key_is(key@)(#[trigger] members@[j]),
                    decreases members.len() - i,
                {
                    if str_eq(members[i].0.as_str(), key) {
                        proof { lemma_first_index(members@, key_is(key@), i as int); }
                        let (_, v) = members.swap_remove(i);
                        return v;
                    }
                    i = i + 1;
                }
                proof { lemma_first_index(members@, key_is(key@), i as int); }
                JsonValue::Null
            },
            _ => JsonValue::Null,
        }
    }

    /// The items when `self` is a JSON array.
    pub fn as_array(&self) -> (r: Option<&Vec<JsonValue>>)
        ensures
            match r {
                Some(items) => *self == JsonValue::Array(*items),
                None => !(*self is Array),
            },
    {
        match self {
            JsonValue::Array(items) => Some(items),
            _ => None,
        }
    }
}

} // verus!
