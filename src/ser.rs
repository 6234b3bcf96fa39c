//! The producer: builds the dynamic value for each shape of the generic data
//! model.
//!
//! Containers take the values of their children already built, so a walk of
//! a structured value calls these bottom-up. Field names and enum tags go
//! through a label cache.
use vstd::prelude::*;
use crate::error::{Error, Expected};
use crate::labels::LabelCache;
use crate::number::{int_to_double, to_double, WIDE_LIMIT};
use crate::value::Value;

verus! {

/// The entries of a plain object that a struct's fields give, in order:
/// each field that holds a value, under its name; a skipped field gives none.
pub open spec fn kept_fields(fields: Seq<(&str, Option<Value>)>) -> Seq<(Seq<char>, Value)>
    decreases fields.len(),
{
    if fields.len() == 0 {
        Seq::empty()
    } else {
        let prev = kept_fields(fields.drop_last());
        match fields.last().1 {
            Some(v) => prev.push((fields.last().0@, v)),
            None => prev,
        }
    }
}

/// The entries of a plain object, with each key as its text.
pub open spec fn object_view(entries: Seq<(String, Value)>) -> Seq<(Seq<char>, Value)> {
    entries.map_values(|e: (String, Value)| (e.0@, e.1))
}

/// Every key is a string.
pub open spec fn string_keys(entries: Seq<(Value, Value)>) -> bool {
    forall|i: int| 0 <= i < entries.len() ==> (#[trigger] entries[i]).0 is Str
}

/// The entries of a map with string keys, as those of a plain object.
pub open spec fn keys_as_text(entries: Seq<(Value, Value)>) -> Seq<(Seq<char>, Value)> {
    entries.map_values(|e: (Value, Value)| (e.0->Str_0@, e.1))
}

/// A boolean.
pub fn serialize_bool(b: bool) -> (r: Value)
    ensures
        r == Value::Bool(b),
{
    Value::Bool(b)
}

/// An integer of any width up to 64 bits, as the nearest double.
pub fn serialize_integer(n: i128) -> (r: Value)
    requires
        -WIDE_LIMIT <= n <= WIDE_LIMIT,
    ensures
        r == Value::Number(to_double(n as int) as i128),
{
    Value::Number(int_to_double(n))
}

/// The unit value, a unit struct, or an absent option.
pub fn serialize_unit() -> (r: Value)
    ensures
        r == Value::Null,
{
    Value::Null
}

/// A string.
pub fn serialize_str(s: &str) -> (r: Value)
    ensures
        r is Str && r->Str_0@ == s@,
{
    Value::Str(s.to_owned())
}

/// A byte sequence, as an array of small numbers.
pub fn serialize_bytes(b: &[u8]) -> (r: Value)
    ensures
        r is Array,
        r->Array_0.len() == b@.len(),
        forall|i: int| 0 <= i < b@.len() ==> r->Array_0[i] == Value::Number(b@[i] as i128),
{
    let mut out: Vec<Value> = Vec::new();
    let mut i: usize = 0;
    while i < b.len()
        invariant
            i <= b@.len(),
            out.len() == i,
            forall|j: int| 0 <= j < i ==> out[j] == Value::Number(b@[j] as i128),
        decreases b@.len() - i,
    {
        out.push(Value::Number(b[i] as i128));
        i = i + 1;
    }
    Value::Array(out)
}

/// A sequence or tuple of values already built, as an array in the same
/// order.
pub fn serialize_seq(elems: Vec<Value>) -> (r: Value)
    ensures
        r is Array && r->Array_0@ == elems@,
{
    Value::Array(elems)
}

/// The items of `v` in reverse order.
fn reversed<T>(v: Vec<T>) -> (r: Vec<T>)
    ensures
        r.len() == v.len(),
        forall|j: int| 0 <= j < v.len() ==> r[j] == v[v.len() - 1 - j],
{
    let ghost orig = v@;
    let mut v = v;
    let mut r: Vec<T> = Vec::new();
    while v.len() > 0
        invariant
            v.len() + r.len() == orig.len(),
            forall|j: int| 0 <= j < v.len() ==> v[j] == orig[j],
            forall|j: int| 0 <= j < r.len() ==> r[j] == orig[orig.len() - 1 - j],
        decreases v.len(),
    {
        let x = v.pop().unwrap();
        r.push(x);
    }
    r
}

/// Whether every key of `entries` is a string.
fn all_string_keys(entries: &Vec<(Value, Value)>) -> (r: bool)
    ensures
        r == string_keys(entries@),
{
    let mut i: usize = 0;
    while i < entries.len()
        invariant
            i <= entries.len(),
            forall|j: int| 0 <= j < i ==> (#[trigger] entries@[j]).0 is Str,
        decreases entries.len() - i,
    {
        match &entries[i].0 {
            Value::Str(_) => {},
            _ => {
                return false;
            },
        }
        i = i + 1;
    }
    true
}

/// A map of entries already built, in insertion order: a plain object where
/// every key is a string, else a native map holding each key as it is.
pub fn serialize_map(entries: Vec<(Value, Value)>) -> (r: Value)
    ensures
        string_keys(entries@) ==> r is Object && object_view(r->Object_0@) == keys_as_text(
            entries@,
        ),
        !string_keys(entries@) ==> r is NativeMap && r->NativeMap_0@ == entries@,
{
    if !all_string_keys(&entries) {
        return Value::NativeMap(entries);
    }
    let ghost orig = entries@;
    let n = entries.len();
    let mut rev = reversed(entries);
    let mut out: Vec<(String, Value)> = Vec::new();
    while rev.len() > 0
        invariant
            rev.len() + out.len() == n,
            n == orig.len(),
            string_keys(orig),
            forall|j: int| 0 <= j < rev.len() ==> rev[j] == orig[n - 1 - j],
            forall|j: int|
                0 <= j < out.len() ==> (#[trigger] out[j]).0@ == orig[j].0->Str_0@ && out[j].1
                    == orig[j].1,
        decreases rev.len(),
    {
        let (k, v) = rev.pop().unwrap();
        assert(orig[out.len() as int].0 is Str);
        if let Value::Str(key) = k {
            out.push((key, v));
        }
    }
    assert(object_view(out@) =~= keys_as_text(orig));
    Value::Object(out)
}

/// The entries of a struct: each field that holds a value, under its name
/// as held by `cache`.
fn struct_entries(cache: &mut LabelCache, fields: Vec<(&str, Option<Value>)>) -> (r: Vec<
    (String, Value),
>)
    requires
        old(cache).wf(),
    ensures
        final(cache).wf(),
        old(cache)@.is_prefix_of(final(cache)@),
        object_view(r@) == kept_fields(fields@),
{
    let ghost orig = fields@;
    let n = fields.len();
    let mut rev = reversed(fields);
    let mut out: Vec<(String, Value)> = Vec::new();
    let mut k: usize = 0;
    assert(orig.take(0).len() == 0);
    assert(object_view(out@) =~= kept_fields(orig.take(0)));
    while rev.len() > 0
        invariant
            rev.len() + k == n,
            n == orig.len(),
            cache.wf(),
            old(cache)@.is_prefix_of(cache@),
            forall|j: int| 0 <= j < rev.len() ==> rev[j] == orig[n - 1 - j],
            object_view(out@) == kept_fields(orig.take(k as int)),
        decreases rev.len(),
    {
        let (name, value) = rev.pop().unwrap();
        let ghost before = out@;
        assert(orig.take(k + 1).drop_last() =~= orig.take(k as int));
        assert(orig.take(k + 1).last() == orig[k as int]);
        let ghost c0 = cache@;
        if let Some(v) = value {
            let h = cache.intern(name);
            let key = cache.text(h).clone();
            out.push((key, v));
            assert(object_view(out@) =~= object_view(before).push((name@, v)));
        }
        assert(old(cache)@.is_prefix_of(cache@)) by {
            assert(cache@.subrange(0, old(cache)@.len() as int) =~= c0.subrange(0, old(cache)@.len() as int));
        }
        k = k + 1;
    }
    assert(orig.take(n as int) =~= orig);
    out
}

/// The position of the first key of `entries` that is not a string.
pub open spec fn first_other_key(entries: Seq<(Value, Value)>) -> int
    recommends
        !string_keys(entries),
{
    choose|i: int|
        0 <= i < entries.len() && !(entries[i].0 is Str) && forall|j: int|
            0 <= j < i ==> (#[trigger] entries[j]).0 is Str
}

/// A map whose keys must all be strings: a plain object as `serialize_map`
/// builds it, or, at the first key of another kind, a type mismatch naming
/// that key's kind. This is the policy that refuses composite keys rather
/// than use a native map.
pub fn serialize_string_keyed_map(entries: Vec<(Value, Value)>) -> (r: Result<Value, Error>)
    ensures
        string_keys(entries@) ==> (r matches Ok(v) && v is Object && object_view(v->Object_0@)
            == keys_as_text(entries@)),
        !string_keys(entries@) ==> r == Err::<Value, Error>(
            Error::mismatch(Expected::Str, entries@[first_other_key(entries@)].0.tag_of()),
        ),
{
    let mut i: usize = 0;
    while i < entries.len()
        invariant
            i <= entries.len(),
            forall|j: int| 0 <= j < i ==> (#[trigger] entries@[j]).0 is Str,
        decreases entries.len() - i,
    {
        match &entries[i].0 {
            Value::Str(_) => {},
            k => {
                let found = k.tag();
                proof {
                    let w = first_other_key(entries@);
                    assert(!(entries@[i as int].0 is Str));
                    assert(0 <= w < entries.len() && !(entries@[w].0 is Str) && forall|j: int|
                        0 <= j < w ==> (#[trigger] entries@[j]).0 is Str);
                    if w < i {
                    } else if w > i {
                        assert(entries@[i as int].0 is Str);
                    }
                }
                return Err(Error::TypeMismatch { expected: Expected::Str, found });
            },
        }
        i = i + 1;
    }
    Ok(serialize_map(entries))
}

/// A struct: a plain object of the fields that hold a value, in the given
/// order, each under its name; a skipped field gets no entry at all.
pub fn serialize_struct(cache: &mut LabelCache, fields: Vec<(&str, Option<Value>)>) -> (r: Value)
    requires
        old(cache).wf(),
    ensures
        final(cache).wf(),
        old(cache)@.is_prefix_of(final(cache)@),
        r is Object && object_view(r->Object_0@) == kept_fields(fields@),
{
    Value::Object(struct_entries(cache, fields))
}

/// A unit variant: its tag as a string.
pub fn serialize_unit_variant(cache: &mut LabelCache, tag: &str) -> (r: Value)
    requires
        old(cache).wf(),
    ensures
        final(cache).wf(),
        old(cache)@.is_prefix_of(final(cache)@),
        r is Str && r->Str_0@ == tag@,
{
    let h = cache.intern(tag);
    Value::Str(cache.text(h).clone())
}

/// A variant with a payload already built: an object of one entry, the tag
/// as key and the payload as value.
pub fn serialize_variant(cache: &mut LabelCache, tag: &str, payload: Value) -> (r: Value)
    requires
        old(cache).wf(),
    ensures
        final(cache).wf(),
        old(cache)@.is_prefix_of(final(cache)@),
        r is Object && r->Object_0.len() == 1 && r->Object_0[0].0@ == tag@ && r->Object_0[0].1
            == payload,
{
    let h = cache.intern(tag);
    let key = cache.text(h).clone();
    let mut out: Vec<(String, Value)> = Vec::new();
    out.push((key, payload));
    Value::Object(out)
}

/// A newtype variant: the tag over the wrapped value.
pub fn serialize_newtype_variant(cache: &mut LabelCache, tag: &str, value: Value) -> (r: Value)
    requires
        old(cache).wf(),
    ensures
        final(cache).wf(),
        old(cache)@.is_prefix_of(final(cache)@),
        r is Object && r->Object_0.len() == 1 && r->Object_0[0].0@ == tag@ && r->Object_0[0].1
            == value,
{
    serialize_variant(cache, tag, value)
}

/// A tuple variant: the tag over an array of the elements.
pub fn serialize_tuple_variant(cache: &mut LabelCache, tag: &str, elems: Vec<Value>) -> (r: Value)
    requires
        old(cache).wf(),
    ensures
        final(cache).wf(),
        old(cache)@.is_prefix_of(final(cache)@),
        r is Object && r->Object_0.len() == 1 && r->Object_0[0].0@ == tag@ && r->Object_0[0].1
            is Array && r->Object_0[0].1->Array_0@ == elems@,
{
    let payload = serialize_seq(elems);
    let r = serialize_variant(cache, tag, payload);
    r
}

/// A struct variant: the tag over an object of the fields that hold a value.
pub fn serialize_struct_variant(
    cache: &mut LabelCache,
    tag: &str,
    fields: Vec<(&str, Option<Value>)>,
) -> (r: Value)
    requires
        old(cache).wf(),
    ensures
        final(cache).wf(),
        old(cache)@.is_prefix_of(final(cache)@),
        r is Object && r->Object_0.len() == 1 && r->Object_0[0].0@ == tag@ && r->Object_0[0].1
            is Object && object_view(r->Object_0[0].1->Object_0@) == kept_fields(fields@),
{
    let payload = serialize_struct(cache, fields);
    let ghost c1 = cache@;
    let r = serialize_variant(cache, tag, payload);
    assert(old(cache)@.is_prefix_of(cache@)) by {
        assert(cache@.subrange(0, old(cache)@.len() as int) =~= c1.subrange(0, old(cache)@.len() as int));
    }
    r
}

} // verus!
