use vstd::prelude::*;

use crate::text::text_eq;

verus! {

/// A JSON number as this crate reads it: an integer that fits in `i64`, or any
/// other number, kept as its JSON text.
#[derive(Clone, Debug, PartialEq, Eq)]
pub enum JsonNumber {
    Int(i64),
    Other(String),
}

/// A JSON document: what request bodies and the account's fingerprint fields hold.
/// An object keeps its members in order; its keys are distinct.
#[derive(Debug)]
pub enum JsonValue {
    Null,
    Bool(bool),
    Number(JsonNumber),
    String(String),
    Array(Vec<JsonValue>),
    Object(Vec<(String, JsonValue)>),
}

/// The value of the first member of `entries` named `key`.
pub open spec fn entry_lookup(entries: Seq<(String, JsonValue)>, key: Seq<char>) -> Option<JsonValue>
    decreases entries.len(),
{
    if entries.len() == 0 {
        None
    } else if entries[0].0@ == key {
        Some(entries[0].1)
    } else {
        entry_lookup(entries.drop_first(), key)
    }
}

impl JsonValue {
    /// The member `key` of an object; nothing for other values.
    pub open spec fn lookup(self, key: Seq<char>) -> Option<JsonValue> {
        match self {
            JsonValue::Object(entries) => entry_lookup(entries@, key),
            _ => None,
        }
    }

    /// The characters of a string value.
    pub open spec fn text(self) -> Option<Seq<char>> {
        match self {
            JsonValue::String(s) => Some(s@),
            _ => None,
        }
    }

    /// The value of a number that fits in `i64`.
    pub open spec fn integer(self) -> Option<i64> {
        match self {
            JsonValue::Number(JsonNumber::Int(i)) => Some(i),
            _ => None,
        }
    }

    /// The items of an array.
    pub open spec fn items(self) -> Option<Seq<JsonValue>> {
        match self {
            JsonValue::Array(items) => Some(items@),
            _ => None,
        }
    }

    /// Whether the value is an object.
    pub open spec fn is_object_value(self) -> bool {
        self is Object
    }

    /// The text of `key`, when the value is an object whose member `key` is a string.
    pub open spec fn text_at(self, key: Seq<char>) -> Option<Seq<char>> {
        match self.lookup(key) {
            Some(v) => v.text(),
            None => None,
        }
    }

    /// The integer at `key`, when the value is an object whose member `key` is an
    /// integer that fits in `i64`.
    pub open spec fn int_at(self, key: Seq<char>) -> Option<i64> {
        match self.lookup(key) {
            Some(v) => v.integer(),
            None => None,
        }
    }

    /// An object without members.
    pub fn empty_object() -> (r: JsonValue)
        ensures
            r is Object,
            r->Object_0@.len() == 0,
    {
        JsonValue::Object(Vec::new())
    }

    /// The member `key` of an object, like `serde_json::Value::get` with a string key.
    pub fn get(&self, key: &str) -> (r: Option<&JsonValue>)
        ensures
            match r {
                Some(v) => self.lookup(key@) == Some(*v),
                None => self.lookup(key@) is None,
            },
    {
        match self {
            JsonValue::Object(entries) => {
                let n = entries.len();
                let mut i: usize = 0;
                assert(entries@.subrange(0, n as int) =~= entries@);
                while i < n
                    invariant
                        n == entries@.len(),
                        self.lookup(key@) == entry_lookup(entries@, key@),
                        i <= n,
                        entry_lookup(entries@.subrange(i as int, n as int), key@)
                            == entry_lookup(entries@, key@),
                    decreases n - i,
                {
                    proof {
                        let rest = entries@.subrange(i as int, n as int);
                        assert(rest.drop_first() =~= entries@.subrange(i + 1, n as int));
                        assert(rest[0] == entries@[i as int]);
                    }
                    if text_eq(entries[i].0.as_str(), key) {
                        assert(entry_lookup(entries@.subrange(i as int, n as int), key@)
                            == Some(entries@[i as int].1));
                        return Some(&entries[i].1);
                    }
                    i = i + 1;
                }
                None
            },
            _ => None,
        }
    }

    /// The characters of a string value, like `serde_json::Value::as_str`.
    pub fn as_str(&self) -> (r: Option<&String>)
        ensures
            match r {
                Some(s) => self.text() == Some(s@),
                None => self.text() is None,
            },
    {
        match self {
            JsonValue::String(s) => Some(s),
            _ => None,
        }
    }

    /// The value of a number that fits in `i64`, like `serde_json::Value::as_i64`.
    pub fn as_i64(&self) -> (r: Option<i64>)
        ensures
            r == self.integer(),
    {
        match self {
            JsonValue::Number(JsonNumber::Int(i)) => Some(*i),
            _ => None,
        }
    }

    /// The items of an array, like `serde_json::Value::as_array`.
    pub fn as_array(&self) -> (r: Option<&Vec<JsonValue>>)
        ensures
            match r {
                Some(items) => self.items() == Some(items@),
                None => self.items() is None,
            },
    {
        match self {
            JsonValue::Array(items) => Some(items),
            _ => None,
        }
    }

    /// Whether the value is an object, like `serde_json::Value::is_object`.
    pub fn is_object(&self) -> (r: bool)
        ensures
            r == self.is_object_value(),
    {
        match self {
            JsonValue::Object(_) => true,
            _ => false,
        }
    }

    /// The text of the string member `key` of an object.
    pub fn str_at(&self, key: &str) -> (r: Option<&String>)
        ensures
            match r {
                Some(s) => self.text_at(key@) == Some(s@),
                None => self.text_at(key@) is None,
            },
    {
        match self.get(key) {
            Some(v) => v.as_str(),
            None => None,
        }
    }

    /// The integer member `key` of an object.
    pub fn i64_at(&self, key: &str) -> (r: Option<i64>)
        ensures
            r == self.int_at(key@),
    {
        match self.get(key) {
            Some(v) => v.as_i64(),
            None => None,
        }
    }
}

} // verus!
