//! JSON values as plain data, for the tool payloads whose shape the rules
//! read. Objects keep their entries in order; keys are unique in values
//! decoded from JSON text.
use vstd::prelude::*;

use crate::text::str_eq;

verus! {

/// A JSON value. Numbers keep their text.
#[derive(Debug)]
pub enum Json {
    Null,
    Bool(bool),
    Number(String),
    Str(String),
    Array(Vec<Json>),
    Object(Vec<(String, Json)>),
}

/// The value of the first entry with the given key.
pub open spec fn entry_lookup(entries: Seq<(String, Json)>, key: Seq<char>) -> Option<Json>
    decreases entries.len(),
{
    if entries.len() == 0 {
        None
    } else if entries[0].0@ == key {
        Some(entries[0].1)
    } else {
        entry_lookup(entries.skip(1), key)
    }
}

/// A member of an object; `None` for other values and missing keys.
pub open spec fn json_get(value: Json, key: Seq<char>) -> Option<Json> {
    match value {
        Json::Object(entries) => entry_lookup(entries@, key),
        _ => None,
    }
}

/// The text of a string value.
pub open spec fn json_str(value: Json) -> Option<Seq<char>> {
    match value {
        Json::Str(s) => Some(s@),
        _ => None,
    }
}

/// Looks up a member of an object.
pub fn get<'a>(value: &'a Json, key: &str) -> (member: Option<&'a Json>)
    ensures
        match member {
            Some(m) => json_get(*value, key@) == Some(*m),
            None => json_get(*value, key@) is None,
        },
{
    match value {
        Json::Object(entries) => {
            assert(json_get(*value, key@) == entry_lookup(entries@, key@));
            let mut i: usize = 0;
            assert(entries@.skip(0) == entries@);
            while i < entries.len()
                invariant
                    i <= entries.len(),
                    json_get(*value, key@) == entry_lookup(entries@, key@),
                    entry_lookup(entries@, key@) == entry_lookup(entries@.skip(i as int), key@),
                decreases entries.len() - i,
            {
                assert(entries@.skip(i as int)[0] == entries@[i as int]);
                assert(entries@.skip(i as int).skip(1) == entries@.skip(i + 1));
                if str_eq(entries[i].0.as_str(), key) {
                    assert(entry_lookup(entries@.skip(i as int), key@) == Some(entries@[i as int].1));
                    return Some(&entries[i].1);
                }
                i = i + 1;
            }
            None
        },
        _ => None,
    }
}

} // verus!
