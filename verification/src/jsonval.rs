//! A structured (JSON-like) value, as plain data.
//!
//! The relational store keeps ingredient amounts in a structured column and the
//! wire protocol carries them the same way.  The library models such a value
//! with its own type so that the shape checks on it — the heart of the
//! deserialization taxonomy — are verified.  Adapters convert between this type
//! and their serializer's value type one constructor at a time.

use vstd::prelude::*;

use crate::amount::Amount;

verus! {

/// A structured value: null, boolean, number, string, array or object.
/// Numbers are carried as 64-bit float bit patterns (see [`Amount`]).
pub enum JsonValue {
    Null,
    Bool(bool),
    Num(Amount),
    Str(String),
    Arr(Vec<JsonValue>),
    Obj(Vec<JsonMember>),
}

/// One key/value member of a structured object.
pub struct JsonMember {
    pub key: String,
    pub value: JsonValue,
}

/// The first member of `fields` whose key reads `key`, if any.
pub open spec fn find_field_spec(fields: Seq<JsonMember>, key: Seq<char>) -> Option<JsonValue>
    decreases fields.len(),
{
    if fields.len() == 0 {
        None
    } else if fields[0].key@ == key {
        Some(fields[0].value)
    } else {
        find_field_spec(fields.drop_first(), key)
    }
}

/// Looks a key up among an object's members, first match wins.
pub fn find_field<'a>(fields: &'a Vec<JsonMember>, key: &str) -> (r: Option<&'a JsonValue>)
    ensures
        match r {
            Some(v) => find_field_spec(fields@, key@) == Some(*v),
            None => find_field_spec(fields@, key@) is None,
        },
{
    let mut i: usize = 0;
    proof {
        assert(fields@.skip(0) =~= fields@);
    }
    while i < fields.len()
        invariant
            i <= fields@.len(),
            find_field_spec(fields@, key@) == find_field_spec(fields@.skip(i as int), key@),
        decreases fields@.len() - i,
    {
        proof {
            assert(fields@.skip(i as int)[0] == fields@[i as int]);
            assert(fields@.skip(i as int).drop_first() =~= fields@.skip(i + 1));
        }
        if crate::text::str_eq(fields[i].key.as_str(), key) {
            return Some(&fields[i].value);
        }
        i = i + 1;
    }
    proof {
        assert(fields@.skip(fields@.len() as int).len() == 0);
    }
    None
}

} // verus!
