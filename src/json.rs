//! A JSON document held as plain values, and the lookups the normalizer makes on it.
use vstd::prelude::*;

verus! {

/// A JSON number as the payload wrote it.
#[derive(Debug)]
pub enum JsonNumber {
    /// A non-negative integer.
    PosInt(u64),
    /// A negative integer.
    NegInt(i64),
    /// Any other number, in its decimal text.
    Float(String),
}

#[derive(Debug)]
/// A JSON value. An object lists its members; a lookup takes the first one with the key.
pub enum JsonValue {
    Null,
    Bool(bool),
    Number(JsonNumber),
    String(String),
    Array(Vec<JsonValue>),
    Object(Vec<(String, JsonValue)>),
}

/// The value of the first member named `key`, if any.
pub open spec fn member(entries: Seq<(String, JsonValue)>, key: Seq<char>) -> Option<JsonValue>
    decreases entries.len(),
{
    if entries.len() == 0 {
        None
    } else if entries[0].0@ == key {
        Some(entries[0].1)
    } else {
        member(entries.drop_first(), key)
    }
}

/// `v[key]`: the member `key` of an object; nothing for any other value.
pub open spec fn at(v: Option<JsonValue>, key: Seq<char>) -> Option<JsonValue> {
    match v {
        Some(JsonValue::Object(entries)) => member(entries@, key),
        _ => None,
    }
}

pub open spec fn text_of(v: Option<JsonValue>) -> Option<Seq<char>> {
    match v {
        Some(JsonValue::String(s)) => Some(s@),
        _ => None,
    }
}

pub open spec fn flag_of(v: Option<JsonValue>) -> Option<bool> {
    match v {
        Some(JsonValue::Bool(b)) => Some(b),
        _ => None,
    }
}

/// A non-negative integer that fits in 32 bits.
pub open spec fn dimension_of(v: Option<JsonValue>) -> Option<u32> {
    match v {
        Some(JsonValue::Number(JsonNumber::PosInt(n))) => if n <= u32::MAX {
            Some(n as u32)
        } else {
            None
        },
        _ => None,
    }
}

pub open spec fn items_of(v: Option<JsonValue>) -> Option<Seq<JsonValue>> {
    match v {
        Some(JsonValue::Array(items)) => Some(items@),
        _ => None,
    }
}

/// Absent, or an explicit `null`.
pub open spec fn is_null(v: Option<JsonValue>) -> bool {
    match v {
        Some(JsonValue::Null) | None => true,
        _ => false,
    }
}

pub open spec fn deref_opt(v: Option<&JsonValue>) -> Option<JsonValue> {
    match v {
        Some(x) => Some(*x),
        None => None,
    }
}

/// The first member of `entries` named `key`.
pub fn find_member<'a>(entries: &'a Vec<(String, JsonValue)>, key: &str) -> (r: Option<&'a JsonValue>)
    ensures
        deref_opt(r) == member(entries@, key@),
{
    let k = String::from_str(key);
    let mut i: usize = 0;
    assert(entries@.subrange(0, entries@.len() as int) =~= entries@);
    while i < entries.len()
        invariant
            i <= entries@.len(),
            k@ == key@,
            member(entries@, key@) == member(entries@.subrange(i as int, entries@.len() as int), key@),
        decreases entries.len() - i,
    {
        let ghost rest = entries@.subrange(i as int, entries@.len() as int);
        assert(rest[0] == entries@[i as int]);
        assert(rest.drop_first() =~= entries@.subrange(i + 1, entries@.len() as int));
        if entries[i].0 == k {
            return Some(&entries[i].1);
        }
        i += 1;
    }
    assert(entries@.subrange(i as int, entries@.len() as int) =~= Seq::<(String, JsonValue)>::empty());
    None
}

/// `v[key]`: looks up `key` when `v` is present and an object.
pub fn field<'a>(v: Option<&'a JsonValue>, key: &str) -> (r: Option<&'a JsonValue>)
    ensures
        deref_opt(r) == at(deref_opt(v), key@),
{
    match v {
        Some(JsonValue::Object(entries)) => find_member(entries, key),
        _ => None,
    }
}

pub fn as_text(v: Option<&JsonValue>) -> (r: Option<String>)
    ensures
        match r {
            Some(s) => text_of(deref_opt(v)) == Some(s@),
            None => text_of(deref_opt(v)) is None,
        },
{
    match v {
        Some(JsonValue::String(s)) => Some(s.clone()),
        _ => None,
    }
}

pub fn as_flag(v: Option<&JsonValue>) -> (r: Option<bool>)
    ensures
        r == flag_of(deref_opt(v)),
{
    match v {
        Some(JsonValue::Bool(b)) => Some(*b),
        _ => None,
    }
}

pub fn as_dimension(v: Option<&JsonValue>) -> (r: Option<u32>)
    ensures
        r == dimension_of(deref_opt(v)),
{
    match v {
        Some(JsonValue::Number(JsonNumber::PosInt(n))) => if *n <= 0xffff_ffffu64 {
            Some(*n as u32)
        } else {
            None
        },
        _ => None,
    }
}

pub fn as_items<'a>(v: Option<&'a JsonValue>) -> (r: Option<&'a Vec<JsonValue>>)
    ensures
        match r {
            Some(items) => items_of(deref_opt(v)) == Some(items@),
            None => items_of(deref_opt(v)) is None,
        },
{
    match v {
        Some(JsonValue::Array(items)) => Some(items),
        _ => None,
    }
}

/// A copy of `n`, equal to it.
pub fn copy_number(n: &JsonNumber) -> (r: JsonNumber)
    ensures
        r == *n,
{
    match n {
        JsonNumber::PosInt(x) => JsonNumber::PosInt(*x),
        JsonNumber::NegInt(x) => JsonNumber::NegInt(*x),
        JsonNumber::Float(t) => JsonNumber::Float(t.clone()),
    }
}

pub fn absent_or_null(v: Option<&JsonValue>) -> (r: bool)
    ensures
        r == is_null(deref_opt(v)),
{
    match v {
        Some(JsonValue::Null) | None => true,
        _ => false,
    }
}

} // verus!
