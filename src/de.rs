//! The consumer: reads a dynamic value as the shape a visitor asks for.
//!
//! Each function answers one request of the generic data model. It inspects
//! the value's runtime kind and either hands back what the request needs
//! (the scalar, the elements, the entries, the variant) or fails with a type
//! mismatch naming what was asked for and what was found.
use vstd::prelude::*;
use crate::error::{Error, Expected};
use crate::ser::object_view;
use crate::value::{Tag, Value};

verus! {

/// The entries of a value read as a map or a struct.
pub enum Entries<'a> {
    Object(&'a Vec<(String, Value)>),
    Native(&'a Vec<(Value, Value)>),
}

pub open spec fn decode_unit(v: Value) -> Result<(), Error> {
    if v.is_absent() {
        Ok(())
    } else {
        Err(Error::mismatch(Expected::Unit, v.tag_of()))
    }
}

pub open spec fn decode_bool(v: Value) -> Result<bool, Error> {
    match v {
        Value::Bool(b) => Ok(b),
        _ => Err(Error::mismatch(Expected::Bool, v.tag_of())),
    }
}

pub open spec fn decode_integer(v: Value, lo: i128, hi: i128) -> Result<i128, Error> {
    match v {
        Value::Number(n) if lo <= n <= hi => Ok(n),
        _ => Err(Error::mismatch(Expected::Integer { lo, hi }, v.tag_of())),
    }
}

/// The value of the first entry of `entries` whose key is `name`.
pub open spec fn text_lookup(entries: Seq<(Seq<char>, Value)>, name: Seq<char>) -> Option<Value>
    decreases entries.len(),
{
    if entries.len() == 0 {
        None
    } else if entries[0].0 == name {
        Some(entries[0].1)
    } else {
        text_lookup(entries.drop_first(), name)
    }
}

/// The value of the first entry of a plain object whose key is `name`.
pub open spec fn object_lookup(entries: Seq<(String, Value)>, name: Seq<char>) -> Option<Value> {
    text_lookup(object_view(entries), name)
}

/// The value of the first entry of a native map whose key is the string
/// `name`.
pub open spec fn native_lookup(entries: Seq<(Value, Value)>, name: Seq<char>) -> Option<Value>
    decreases entries.len(),
{
    if entries.len() == 0 {
        None
    } else if entries[0].0 matches Value::Str(k) && k@ == name {
        Some(entries[0].1)
    } else {
        native_lookup(entries.drop_first(), name)
    }
}

/// The character that a char request reads from `v`: a string of exactly one.
pub open spec fn decode_char(v: Value) -> Result<char, Error> {
    match v {
        Value::Str(s) if s@.len() == 1 => Ok(s@[0]),
        _ => Err(Error::mismatch(Expected::Char, v.tag_of())),
    }
}

/// The elements that a sequence request reads from `v`.
pub open spec fn decode_seq(v: Value) -> Result<Seq<Value>, Error> {
    match v {
        Value::Array(e) => Ok(e@),
        Value::NativeSet(e) => Ok(e@),
        _ => Err(Error::mismatch(Expected::Sequence, v.tag_of())),
    }
}

/// The error of a map or struct request (as `expected`) on `v`, if any.
pub open spec fn entries_error(v: Value, expected: Expected) -> Option<Error> {
    if v is Object || v is NativeMap {
        None
    } else {
        Some(Error::mismatch(expected, v.tag_of()))
    }
}

/// The tag and payload that an enum request reads from `v`.
pub open spec fn decode_enum(v: Value) -> Result<(Seq<char>, Option<Value>), Error> {
    match v {
        Value::Str(t) => Ok((t@, None)),
        Value::Object(e) if e.len() == 1 => Ok((e[0].0@, Some(e[0].1))),
        _ => Err(Error::mismatch(Expected::Enum, v.tag_of())),
    }
}

/// Reads a unit, a unit struct or an absent option.
pub fn deserialize_unit(v: &Value) -> (r: Result<(), Error>)
    ensures
        r == decode_unit(*v),
{
    match v {
        Value::Null | Value::Undefined => Ok(()),
        _ => Err(Error::TypeMismatch { expected: Expected::Unit, found: v.tag() }),
    }
}

/// Reads a boolean.
pub fn deserialize_bool(v: &Value) -> (r: Result<bool, Error>)
    ensures
        r == decode_bool(*v),
{
    match v {
        Value::Bool(b) => Ok(*b),
        _ => Err(Error::TypeMismatch { expected: Expected::Bool, found: v.tag() }),
    }
}

/// Reads an integer of the range `lo..=hi`: the number must be integral and
/// within the range.
pub fn deserialize_integer(v: &Value, lo: i128, hi: i128) -> (r: Result<i128, Error>)
    ensures
        r == decode_integer(*v, lo, hi),
{
    match v {
        Value::Number(n) => {
            if lo <= *n && *n <= hi {
                Ok(*n)
            } else {
                Err(Error::TypeMismatch { expected: Expected::Integer { lo, hi }, found: Tag::Number })
            }
        },
        _ => Err(Error::TypeMismatch { expected: Expected::Integer { lo, hi }, found: v.tag() }),
    }
}

/// Reads a character: a string of exactly one character.
pub fn deserialize_char(v: &Value) -> (r: Result<char, Error>)
    ensures
        r == decode_char(*v),
{
    broadcast use vstd::string::axiom_spec_iter, vstd::string::next_postcondition;

    match v {
        Value::Str(s) => {
            let t: &str = s.as_str();
            let mut it = t.chars();
            let first = it.next();
            let second = it.next();
            match (first, second) {
                (Some(c), None) => Ok(c),
                _ => Err(Error::TypeMismatch { expected: Expected::Char, found: Tag::Str }),
            }
        },
        _ => Err(Error::TypeMismatch { expected: Expected::Char, found: v.tag() }),
    }
}

/// Reads a string.
pub fn deserialize_str(v: &Value) -> (r: Result<&String, Error>)
    ensures
        v is Str ==> (r matches Ok(s) && s@ == v->Str_0@),
        !(v is Str) ==> (r matches Err(e) && e == Error::mismatch(Expected::Str, v.tag_of())),
{
    match v {
        Value::Str(s) => Ok(s),
        _ => Err(Error::TypeMismatch { expected: Expected::Str, found: v.tag() }),
    }
}

/// Reads an option: null and undefined are the absent case, anything else is
/// the present value itself.
pub fn deserialize_option(v: &Value) -> (r: Option<&Value>)
    ensures
        v.is_absent() <==> r is None,
        r matches Some(x) ==> *x == *v,
{
    match v {
        Value::Null | Value::Undefined => None,
        _ => Some(v),
    }
}

/// Reads a sequence or a tuple: the elements of an array, or of a native set
/// in its order.
pub fn deserialize_seq(v: &Value) -> (r: Result<&Vec<Value>, Error>)
    ensures
        match decode_seq(*v) {
            Ok(s) => r matches Ok(e) && e@ == s,
            Err(x) => r matches Err(e) && e == x,
        },
{
    match v {
        Value::Array(e) => Ok(e),
        Value::NativeSet(e) => Ok(e),
        _ => Err(Error::TypeMismatch { expected: Expected::Sequence, found: v.tag() }),
    }
}

/// The entries of a plain object or a native map; anything else is refused
/// as `expected`.
fn entries_as(v: &Value, expected: Expected) -> (r: Result<Entries<'_>, Error>)
    ensures
        v is Object ==> (r matches Ok(Entries::Object(e)) && e@ == v->Object_0@),
        v is NativeMap ==> (r matches Ok(Entries::Native(e)) && e@ == v->NativeMap_0@),
        match entries_error(*v, expected) {
            Some(x) => r matches Err(e) && e == x,
            None => r is Ok,
        },
{
    match v {
        Value::Object(e) => Ok(Entries::Object(e)),
        Value::NativeMap(e) => Ok(Entries::Native(e)),
        _ => Err(Error::TypeMismatch { expected, found: v.tag() }),
    }
}

/// Reads a map: the entries of a plain object or of a native map. An array
/// is refused.
pub fn deserialize_map(v: &Value) -> (r: Result<Entries<'_>, Error>)
    ensures
        v is Object ==> (r matches Ok(Entries::Object(e)) && e@ == v->Object_0@),
        v is NativeMap ==> (r matches Ok(Entries::Native(e)) && e@ == v->NativeMap_0@),
        match entries_error(*v, Expected::Mapping) {
            Some(x) => r matches Err(e) && e == x,
            None => r is Ok,
        },
{
    entries_as(v, Expected::Mapping)
}

/// Reads a struct: the entries of a plain object or of a native map, whose
/// fields are then found by name. An array is refused.
pub fn deserialize_struct(v: &Value) -> (r: Result<Entries<'_>, Error>)
    ensures
        v is Object ==> (r matches Ok(Entries::Object(e)) && e@ == v->Object_0@),
        v is NativeMap ==> (r matches Ok(Entries::Native(e)) && e@ == v->NativeMap_0@),
        match entries_error(*v, Expected::Struct) {
            Some(x) => r matches Err(e) && e == x,
            None => r is Ok,
        },
{
    entries_as(v, Expected::Struct)
}

/// The value of the first entry of a plain object whose key is `name`.
fn object_field<'a>(e: &'a Vec<(String, Value)>, name: &str) -> (r: Option<&'a Value>)
    ensures
        match object_lookup(e@, name@) {
            Some(x) => r matches Some(y) && *y == x,
            None => r is None,
        },
{
    let key = name.to_owned();
    let mut i: usize = 0;
    assert(e@.skip(0) =~= e@);
    while i < e.len()
        invariant
            key@ == name@,
            i <= e.len(),
            object_lookup(e@, name@) == object_lookup(e@.skip(i as int), name@),
        decreases e.len() - i,
    {
        assert(object_view(e@.skip(i as int)).drop_first() =~= object_view(e@.skip(i + 1)));
        assert(object_view(e@.skip(i as int))[0] == (e@[i as int].0@, e@[i as int].1));
        if e[i].0 == key {
            return Some(&e[i].1);
        }
        i = i + 1;
    }
    None
}

/// The value of the first entry of a native map whose key is the string
/// `name`.
fn native_field<'a>(e: &'a Vec<(Value, Value)>, name: &str) -> (r: Option<&'a Value>)
    ensures
        match native_lookup(e@, name@) {
            Some(x) => r matches Some(y) && *y == x,
            None => r is None,
        },
{
    let key = name.to_owned();
    let mut i: usize = 0;
    assert(e@.skip(0) =~= e@);
    while i < e.len()
        invariant
            key@ == name@,
            i <= e.len(),
            native_lookup(e@, name@) == native_lookup(e@.skip(i as int), name@),
        decreases e.len() - i,
    {
        assert(e@.skip(i as int).drop_first() =~= e@.skip(i + 1));
        assert(e@.skip(i as int)[0] == e@[i as int]);
        if let Value::Str(k) = &e[i].0 {
            if *k == key {
                return Some(&e[i].1);
            }
        }
        i = i + 1;
    }
    None
}

/// The value of the field `name`: the first entry whose key is that string.
pub fn field<'a>(entries: &Entries<'a>, name: &str) -> (r: Option<&'a Value>)
    ensures
        entries is Object ==> (match object_lookup(entries->Object_0@, name@) {
            Some(x) => r matches Some(y) && *y == x,
            None => r is None,
        }),
        entries is Native ==> (match native_lookup(entries->Native_0@, name@) {
            Some(x) => r matches Some(y) && *y == x,
            None => r is None,
        }),
{
    match entries {
        Entries::Object(e) => object_field(e, name),
        Entries::Native(e) => native_field(e, name),
    }
}

/// Reads an enum: a string is a unit variant named by it; a plain object of
/// exactly one entry is the variant named by its key, with the entry's value
/// as payload. Anything else is refused.
pub fn deserialize_enum(v: &Value) -> (r: Result<(&String, Option<&Value>), Error>)
    ensures
        match decode_enum(*v) {
            Ok((t, None)) => r matches Ok((tag, None)) && tag@ == t,
            Ok((t, Some(x))) => r matches Ok((tag, Some(p))) && tag@ == t && *p == x,
            Err(x) => r matches Err(e) && e == x,
        },
{
    match v {
        Value::Str(t) => Ok((t, None)),
        Value::Object(e) => {
            if e.len() == 1 {
                Ok((&e[0].0, Some(&e[0].1)))
            } else {
                Err(Error::TypeMismatch { expected: Expected::Enum, found: Tag::Object })
            }
        },
        _ => Err(Error::TypeMismatch { expected: Expected::Enum, found: v.tag() }),
    }
}

} // verus!
