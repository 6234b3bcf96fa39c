//! What holds across the producer and the consumer.
use vstd::prelude::*;
use crate::de::{
    decode_bool, decode_char, decode_enum, decode_integer, decode_seq, decode_unit, entries_error,
    native_lookup, text_lookup,
};
use crate::error::{Error, Expected};
use crate::number::{round_magnitude, to_double, ulp};
use crate::ser::{keys_as_text, kept_fields, string_keys};
use crate::value::{Tag, Value};

verus! {

proof fn lemma_lookup_push(s: Seq<(Seq<char>, Value)>, x: (Seq<char>, Value), name: Seq<char>)
    ensures
        text_lookup(s.push(x), name) == (if text_lookup(s, name) is Some {
            text_lookup(s, name)
        } else if x.0 == name {
            Some(x.1)
        } else {
            None
        }),
    decreases s.len(),
{
    if s.len() > 0 {
        assert(s.push(x)[0] == s[0]);
        assert(s.push(x).drop_first() =~= s.drop_first().push(x));
        lemma_lookup_push(s.drop_first(), x, name);
    } else {
        assert(s.push(x)[0] == x);
        assert(s.push(x).drop_first() =~= Seq::<(Seq<char>, Value)>::empty());
        assert(text_lookup(s, name) is None);
        reveal_with_fuel(text_lookup, 2);
    }
}

proof fn lemma_lookup_none(s: Seq<(Seq<char>, Value)>, name: Seq<char>)
    ensures
        text_lookup(s, name) is None <==> forall|j: int| 0 <= j < s.len() ==> (#[trigger] s[j]).0 != name,
    decreases s.len(),
{
    if s.len() > 0 {
        lemma_lookup_none(s.drop_first(), name);
        assert forall|j: int| 1 <= j < s.len() implies s[j] == s.drop_first()[j - 1] by {}
        if text_lookup(s, name) is None {
            assert forall|j: int| 0 <= j < s.len() implies (#[trigger] s[j]).0 != name by {
                if j > 0 {
                    assert(s.drop_first()[j - 1] == s[j]);
                }
            }
        }
    }
}

proof fn lemma_kept_without(fields: Seq<(&str, Option<Value>)>, name: Seq<char>)
    requires
        forall|j: int| 0 <= j < fields.len() ==> (#[trigger] fields[j]).0@ != name,
    ensures
        text_lookup(kept_fields(fields), name) is None,
    decreases fields.len(),
{
    if fields.len() > 0 {
        let prefix = fields.drop_last();
        lemma_kept_without(prefix, name);
        if let Some(v) = fields.last().1 {
            lemma_lookup_push(kept_fields(prefix), (fields.last().0@, v), name);
        }
    }
}

/// A struct encoded with distinct field names reads back field by field: a
/// field that held a value is found under its name with that value, and a
/// skipped field has no entry at all.
pub proof fn lemma_struct_round_trip(fields: Seq<(&str, Option<Value>)>, i: int)
    requires
        0 <= i < fields.len(),
        forall|a: int, b: int|
            0 <= a < fields.len() && 0 <= b < fields.len() && a != b ==> fields[a].0@ != fields[b].0@,
    ensures
        text_lookup(kept_fields(fields), fields[i].0@) == fields[i].1,
        fields[i].1 is None ==> forall|j: int|
            0 <= j < kept_fields(fields).len() ==> (#[trigger] kept_fields(fields)[j]).0 != fields[i].0@,
    decreases fields.len(),
{
    let n = fields.len() - 1;
    let prefix = fields.drop_last();
    let name = fields[i].0@;
    if i == n {
        assert forall|j: int| 0 <= j < prefix.len() implies (#[trigger] prefix[j]).0@ != name by {
            assert(prefix[j] == fields[j]);
        }
        lemma_kept_without(prefix, name);
    } else {
        assert(prefix[i] == fields[i]);
        lemma_struct_round_trip(prefix, i);
        assert(fields.last().0@ != name);
    }
    if let Some(v) = fields.last().1 {
        lemma_lookup_push(kept_fields(prefix), (fields.last().0@, v), name);
    }
    lemma_lookup_none(kept_fields(fields), name);
}

/// A map with string keys, once written as a plain object, gives under each
/// key what the map itself held first under it.
pub proof fn lemma_map_round_trip(entries: Seq<(Value, Value)>, key: Seq<char>)
    requires
        string_keys(entries),
    ensures
        text_lookup(keys_as_text(entries), key) == native_lookup(entries, key),
    decreases entries.len(),
{
    if entries.len() > 0 {
        let rest = entries.drop_first();
        assert(string_keys(rest)) by {
            assert forall|i: int| 0 <= i < rest.len() implies (#[trigger] rest[i]).0 is Str by {
                assert(rest[i] == entries[i + 1]);
            }
        }
        assert(entries[0].0 is Str);
        assert(keys_as_text(entries).drop_first() =~= keys_as_text(rest));
        lemma_map_round_trip(rest, key);
    }
}

/// Every integer of magnitude at most `2^53` is a double as it is.
pub proof fn lemma_exact_integers(n: int)
    requires
        -0x20_0000_0000_0000 <= n <= 0x20_0000_0000_0000,
    ensures
        to_double(n) == n,
{
    let m: nat = if n >= 0 { n as nat } else { (-n) as nat };
    if m < 0x20_0000_0000_0000 {
        assert(ulp(m) == 1);
        assert(m / 1 == m && m % 1 == 0);
    } else {
        assert(ulp(m / 2) == 1);
        assert(ulp(m) == 2);
    }
    assert(round_magnitude(m) == m);
}

/// `2^53` stays as it is, while `2^53 + 1` becomes `2^53`: the first integer
/// that a double does not hold.
pub proof fn lemma_numeric_boundary()
    ensures
        to_double(0x20_0000_0000_0000) == 0x20_0000_0000_0000,
        to_double(0x20_0000_0000_0001) == 0x20_0000_0000_0000,
        to_double(-0x20_0000_0000_0001) == -0x20_0000_0000_0000,
{
    lemma_exact_integers(0x20_0000_0000_0000);
    let m: nat = 0x20_0000_0000_0001;
    assert(ulp(m / 2) == 1);
    assert(ulp(m) == 2);
    assert(m / 2 == 0x10_0000_0000_0000 && m % 2 == 1);
    assert(round_magnitude(m) == 0x20_0000_0000_0000);
}

/// Scalars read back as they were written: a boolean, the unit, and an
/// integer of magnitude at most `2^53` in the range asked for.
pub proof fn lemma_scalar_round_trip(b: bool, n: i128, lo: i128, hi: i128)
    requires
        -0x20_0000_0000_0000 <= n <= 0x20_0000_0000_0000,
        lo <= n <= hi,
    ensures
        decode_bool(Value::Bool(b)) == Ok::<bool, Error>(b),
        decode_unit(Value::Null) == Ok::<(), Error>(()),
        decode_integer(Value::Number(to_double(n as int) as i128), lo, hi) == Ok::<i128, Error>(n),
{
    lemma_exact_integers(n as int);
}

/// A character, written as a string of one, reads back as itself.
pub proof fn lemma_char_round_trip(v: Value, c: char)
    requires
        v is Str && v->Str_0@ == seq![c],
    ensures
        decode_char(v) == Ok::<char, Error>(c),
{
}

/// An integral number outside the range asked for is refused, not wrapped.
pub proof fn lemma_integer_out_of_range(n: i128, lo: i128, hi: i128)
    requires
        n < lo || hi < n,
    ensures
        decode_integer(Value::Number(n), lo, hi) == Err::<i128, Error>(
            Error::mismatch(Expected::Integer { lo, hi }, Tag::Number),
        ),
{
}

/// A unit variant, written as its tag string, reads back as that tag with no
/// payload; a variant written as an object of one entry reads back as its
/// tag with the entry's value as payload, and an array payload reads back
/// as its elements.
pub proof fn lemma_enum_round_trip(unit: Value, other: Value, tag: Seq<char>, payload: Value)
    requires
        unit is Str && unit->Str_0@ == tag,
        other is Object && other->Object_0.len() == 1 && other->Object_0[0].0@ == tag
            && other->Object_0[0].1 == payload,
    ensures
        decode_enum(unit) == Ok::<(Seq<char>, Option<Value>), Error>((tag, None)),
        decode_enum(other) == Ok::<(Seq<char>, Option<Value>), Error>((tag, Some(payload))),
        payload is Array ==> decode_seq(payload) == Ok::<Seq<Value>, Error>(payload->Array_0@),
{
}

/// An array is never read as a struct or a map: the request fails with a
/// type mismatch.
pub proof fn lemma_array_is_not_struct(v: Value)
    requires
        v is Array,
    ensures
        entries_error(v, Expected::Struct) == Some(Error::mismatch(Expected::Struct, Tag::Array)),
        entries_error(v, Expected::Mapping) == Some(Error::mismatch(Expected::Mapping, Tag::Array)),
{
}

} // verus!
