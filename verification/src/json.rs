use vstd::prelude::*;

verus! {

/// A JSON number: an unsigned integer, a negative integer, or any other
/// number carried opaquely as the bit pattern of its binary64 form.
/// The daemon never does arithmetic on the opaque form; it only stores
/// and forwards it.
#[derive(Clone, Copy, PartialEq, Eq, Structural, Debug)]
pub enum JsonNum {
    UInt(u64),
    Int(i64),
    Bits(u64),
}

/// A JSON value, the shape every wire message and persisted document
/// takes inside the daemon. Object fields keep their order and hold
/// each key once.
pub enum Json {
    Null,
    Bool(bool),
    Num(JsonNum),
    Str(String),
    Arr(Vec<Json>),
    Obj(Vec<(String, Json)>),
}

/// The first value bound to `key`, if any.
pub open spec fn lookup(fields: Seq<(String, Json)>, key: Seq<char>) -> Option<Json>
    decreases fields.len(),
{
    if fields.len() == 0 {
        None
    } else if fields[0].0@ == key {
        Some(fields[0].1)
    } else {
        lookup(fields.drop_first(), key)
    }
}

/// Finds the value bound to `key` in an object's field list.
pub fn obj_get<'a>(fields: &'a Vec<(String, Json)>, key: &str) -> (r: Option<&'a Json>)
    ensures
        match r {
            Some(v) => lookup(fields@, key@) == Some(*v),
            None => lookup(fields@, key@) is None,
        },
{
    let mut i: usize = 0;
    assert(fields@.subrange(0, fields@.len() as int) =~= fields@);
    while i < fields.len()
        invariant
            i <= fields@.len(),
            lookup(fields@, key@) == lookup(fields@.subrange(i as int, fields@.len() as int), key@),
        decreases fields@.len() - i,
    {
        let ghost rest = fields@.subrange(i as int, fields@.len() as int);
        if crate::strutil::str_eq(fields[i].0.as_str(), key) {
            assert(rest[0] == fields@[i as int]);
            return Some(&fields[i].1);
        }
        proof {
            assert(rest[0] == fields@[i as int]);
            assert(rest.drop_first() =~= fields@.subrange(i + 1, fields@.len() as int));
        }
        i += 1;
    }
    None
}

/// The string field of `params` named `key`, when `params` is an object
/// that binds `key` to a string.
pub open spec fn str_field(params: Json, key: Seq<char>) -> Option<Seq<char>> {
    match params {
        Json::Obj(fields) => match lookup(fields@, key) {
            Some(Json::Str(s)) => Some(s@),
            _ => None,
        },
        _ => None,
    }
}

/// The unsigned-integer field of `params` named `key`.
pub open spec fn u64_field(params: Json, key: Seq<char>) -> Option<u64> {
    match params {
        Json::Obj(fields) => match lookup(fields@, key) {
            Some(Json::Num(JsonNum::UInt(v))) => Some(v),
            _ => None,
        },
        _ => None,
    }
}

/// The boolean field of `params` named `key`.
pub open spec fn bool_field(params: Json, key: Seq<char>) -> Option<bool> {
    match params {
        Json::Obj(fields) => match lookup(fields@, key) {
            Some(Json::Bool(b)) => Some(b),
            _ => None,
        },
        _ => None,
    }
}

/// Any field of `params` named `key`.
pub open spec fn any_field(params: Json, key: Seq<char>) -> Option<Json> {
    match params {
        Json::Obj(fields) => lookup(fields@, key),
        _ => None,
    }
}

} // verus!
