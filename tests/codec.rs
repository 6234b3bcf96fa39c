use serde_wasm_bindgen::de::{
    deserialize_bool, deserialize_char, deserialize_enum, deserialize_integer, deserialize_map, deserialize_option,
    deserialize_seq, deserialize_str, deserialize_struct, deserialize_unit, field, Entries,
};
use serde_wasm_bindgen::labels::LabelCache;
use serde_wasm_bindgen::number::int_to_double;
use serde_wasm_bindgen::ser::{
    serialize_bool, serialize_bytes, serialize_integer, serialize_map, serialize_newtype_variant,
    serialize_seq, serialize_str, serialize_string_keyed_map, serialize_struct, serialize_struct_variant,
    serialize_tuple_variant, serialize_unit, serialize_unit_variant,
};
use serde_wasm_bindgen::{Error, Expected, Located, Segment, Tag, Value};

const TWO_53: i128 = 1 << 53;

fn mismatch(expected: Expected, found: Tag) -> Error {
    Error::TypeMismatch { expected, found }
}

#[test]
fn integers_within_53_bits_are_exact() {
    assert_eq!(int_to_double(0), 0);
    assert_eq!(int_to_double(42), 42);
    assert_eq!(int_to_double(-42), -42);
    assert_eq!(int_to_double(TWO_53), TWO_53);
    assert_eq!(int_to_double(-TWO_53), -TWO_53);
    assert_eq!(int_to_double(TWO_53 - 1), TWO_53 - 1);
}

#[test]
fn integers_past_53_bits_round_to_nearest_even() {
    assert_eq!(int_to_double(TWO_53 + 1), TWO_53);
    assert_eq!(int_to_double(TWO_53 + 2), TWO_53 + 2);
    assert_eq!(int_to_double(TWO_53 + 3), TWO_53 + 4);
    assert_eq!(int_to_double(-(TWO_53 + 1)), -TWO_53);
    assert_eq!(int_to_double(u64::MAX as i128), 1i128 << 64);
    assert_eq!(int_to_double(i64::MIN as i128), i64::MIN as i128);
    assert_eq!(int_to_double(i64::MAX as i128), 1i128 << 63);
}

#[test]
fn numeric_boundary_round_trip() {
    let v = serialize_integer(TWO_53);
    assert_eq!(deserialize_integer(&v, 0, u64::MAX as i128), Ok(TWO_53));
    let v = serialize_integer(TWO_53 + 1);
    let back = deserialize_integer(&v, 0, u64::MAX as i128).unwrap();
    assert_ne!(back, TWO_53 + 1);
    assert_eq!(back, TWO_53);
}

#[test]
fn integer_round_trip_each_width() {
    for (n, lo, hi) in [
        (-128i128, i8::MIN as i128, i8::MAX as i128),
        (255, 0, u8::MAX as i128),
        (-32768, i16::MIN as i128, i16::MAX as i128),
        (4_000_000_000, 0, u32::MAX as i128),
        (-9_000_000_000_000, i64::MIN as i128, i64::MAX as i128),
    ] {
        assert_eq!(deserialize_integer(&serialize_integer(n), lo, hi), Ok(n));
    }
}

#[test]
fn integer_out_of_range_is_a_mismatch() {
    let v = serialize_integer(256);
    let expected = Expected::Integer { lo: 0, hi: 255 };
    assert_eq!(deserialize_integer(&v, 0, 255), Err(mismatch(expected, Tag::Number)));
    let v = serialize_integer(-1);
    assert_eq!(deserialize_integer(&v, 0, 255), Err(mismatch(expected, Tag::Number)));
}

#[test]
fn fraction_is_not_an_integer() {
    let v = Value::NonIntegral(0x3ff8_0000_0000_0000);
    let expected = Expected::Integer { lo: -10, hi: 10 };
    assert_eq!(deserialize_integer(&v, -10, 10), Err(mismatch(expected, Tag::Number)));
}

#[test]
fn string_is_not_an_integer() {
    let v = serialize_str("7");
    let expected = Expected::Integer { lo: 0, hi: 10 };
    assert_eq!(deserialize_integer(&v, 0, 10), Err(mismatch(expected, Tag::Str)));
}

#[test]
fn bool_round_trip() {
    assert_eq!(deserialize_bool(&serialize_bool(true)), Ok(true));
    assert_eq!(deserialize_bool(&serialize_bool(false)), Ok(false));
    assert_eq!(deserialize_bool(&Value::Null), Err(mismatch(Expected::Bool, Tag::Null)));
}

#[test]
fn unit_and_absent_option() {
    assert_eq!(serialize_unit(), Value::Null);
    assert_eq!(deserialize_unit(&Value::Null), Ok(()));
    assert_eq!(deserialize_unit(&Value::Undefined), Ok(()));
    assert_eq!(deserialize_unit(&Value::Bool(false)), Err(mismatch(Expected::Unit, Tag::Bool)));
    assert_eq!(deserialize_option(&Value::Null), None);
    assert_eq!(deserialize_option(&Value::Undefined), None);
    assert_eq!(deserialize_option(&Value::Number(3)), Some(&Value::Number(3)));
}

#[test]
fn string_round_trip() {
    let v = serialize_str("héllo");
    assert_eq!(v, Value::Str("héllo".to_string()));
    assert_eq!(deserialize_str(&v).map(|s| s.as_str()), Ok("héllo"));
    assert_eq!(deserialize_str(&Value::Number(1)), Err(mismatch(Expected::Str, Tag::Number)));
}

#[test]
fn bytes_become_an_array_of_numbers() {
    let v = serialize_bytes(&[0, 7, 255]);
    assert_eq!(v, Value::Array(vec![Value::Number(0), Value::Number(7), Value::Number(255)]));
    assert_eq!(serialize_bytes(&[]), Value::Array(vec![]));
}

#[test]
fn sequence_round_trip_keeps_order() {
    let v = serialize_seq(vec![Value::Number(3), Value::Number(1), Value::Number(2)]);
    let back = deserialize_seq(&v).unwrap();
    assert_eq!(back, &vec![Value::Number(3), Value::Number(1), Value::Number(2)]);
}

#[test]
fn native_set_reads_as_sequence() {
    let v = Value::NativeSet(vec![Value::Bool(true), Value::Null]);
    assert_eq!(deserialize_seq(&v).unwrap(), &vec![Value::Bool(true), Value::Null]);
    assert_eq!(deserialize_seq(&Value::Object(vec![])), Err(mismatch(Expected::Sequence, Tag::Object)));
}

#[test]
fn map_with_string_keys_is_an_object() {
    let v = serialize_map(vec![
        (Value::Str("b".to_string()), Value::Number(1)),
        (Value::Str("a".to_string()), Value::Number(2)),
    ]);
    assert_eq!(
        v,
        Value::Object(vec![("b".to_string(), Value::Number(1)), ("a".to_string(), Value::Number(2))])
    );
    assert!(matches!(deserialize_map(&v), Ok(Entries::Object(e)) if e.len() == 2));
}

#[test]
fn map_with_other_keys_is_a_native_map() {
    let entries = vec![
        (Value::Str("a".to_string()), Value::Number(1)),
        (Value::Array(vec![Value::Number(1), Value::Number(2)]), Value::Bool(true)),
    ];
    let v = serialize_map(entries);
    assert_eq!(
        v,
        Value::NativeMap(vec![
            (Value::Str("a".to_string()), Value::Number(1)),
            (Value::Array(vec![Value::Number(1), Value::Number(2)]), Value::Bool(true)),
        ])
    );
    assert!(matches!(deserialize_map(&v), Ok(Entries::Native(e)) if e.len() == 2));
}

#[test]
fn array_is_not_a_map() {
    let v = Value::Array(vec![Value::Number(1)]);
    assert!(matches!(deserialize_map(&v), Err(e) if e == mismatch(Expected::Mapping, Tag::Array)));
}

#[test]
fn array_is_not_a_struct() {
    let v = Value::Array(vec![Value::Number(1), Value::Number(2)]);
    assert!(matches!(deserialize_struct(&v), Err(e) if e == mismatch(Expected::Struct, Tag::Array)));
}

#[test]
fn struct_round_trip_with_skipped_field() {
    let mut cache = LabelCache::new();
    let v = serialize_struct(
        &mut cache,
        vec![("x", Some(Value::Number(1))), ("note", None), ("y", Some(Value::Str("z".to_string())))],
    );
    assert_eq!(
        v,
        Value::Object(vec![
            ("x".to_string(), Value::Number(1)),
            ("y".to_string(), Value::Str("z".to_string())),
        ])
    );
    let entries = deserialize_struct(&v).unwrap();
    assert_eq!(field(&entries, "x"), Some(&Value::Number(1)));
    assert_eq!(field(&entries, "y"), Some(&Value::Str("z".to_string())));
    assert_eq!(field(&entries, "note"), None);
}

#[test]
fn present_option_field_is_kept() {
    let mut cache = LabelCache::new();
    let v = serialize_struct(&mut cache, vec![("note", Some(Value::Null))]);
    assert_eq!(v, Value::Object(vec![("note".to_string(), Value::Null)]));
}

#[test]
fn struct_fields_from_a_native_map() {
    let v = Value::NativeMap(vec![
        (Value::Number(1), Value::Bool(false)),
        (Value::Str("k".to_string()), Value::Bool(true)),
    ]);
    let entries = deserialize_struct(&v).unwrap();
    assert_eq!(field(&entries, "k"), Some(&Value::Bool(true)));
    assert_eq!(field(&entries, "1"), None);
}

#[test]
fn first_entry_wins_on_repeated_keys() {
    let v = Value::Object(vec![("k".to_string(), Value::Number(1)), ("k".to_string(), Value::Number(2))]);
    let entries = deserialize_struct(&v).unwrap();
    assert_eq!(field(&entries, "k"), Some(&Value::Number(1)));
}

#[test]
fn unit_variant_round_trip() {
    let mut cache = LabelCache::new();
    let v = serialize_unit_variant(&mut cache, "Red");
    assert_eq!(v, Value::Str("Red".to_string()));
    let (tag, payload) = deserialize_enum(&v).unwrap();
    assert_eq!(tag, "Red");
    assert_eq!(payload, None);
}

#[test]
fn tuple_variant_round_trip() {
    let mut cache = LabelCache::new();
    let v = serialize_tuple_variant(
        &mut cache,
        "Point",
        vec![serialize_integer(1), serialize_integer(2)],
    );
    assert_eq!(
        v,
        Value::Object(vec![(
            "Point".to_string(),
            Value::Array(vec![Value::Number(1), Value::Number(2)])
        )])
    );
    let (tag, payload) = deserialize_enum(&v).unwrap();
    assert_eq!(tag, "Point");
    let elems = deserialize_seq(payload.unwrap()).unwrap();
    assert_eq!(deserialize_integer(&elems[0], 0, 10), Ok(1));
    assert_eq!(deserialize_integer(&elems[1], 0, 10), Ok(2));
}

#[test]
fn newtype_and_struct_variants() {
    let mut cache = LabelCache::new();
    let v = serialize_newtype_variant(&mut cache, "Wrap", Value::Bool(true));
    assert_eq!(v, Value::Object(vec![("Wrap".to_string(), Value::Bool(true))]));
    let v = serialize_struct_variant(&mut cache, "Rec", vec![("a", Some(Value::Number(5))), ("b", None)]);
    assert_eq!(
        v,
        Value::Object(vec![(
            "Rec".to_string(),
            Value::Object(vec![("a".to_string(), Value::Number(5))])
        )])
    );
    assert_eq!(cache.len(), 3);
}

#[test]
fn enum_rejects_other_shapes() {
    assert_eq!(deserialize_enum(&Value::Number(1)), Err(mismatch(Expected::Enum, Tag::Number)));
    let two = Value::Object(vec![("a".to_string(), Value::Null), ("b".to_string(), Value::Null)]);
    assert_eq!(deserialize_enum(&two), Err(mismatch(Expected::Enum, Tag::Object)));
    assert_eq!(deserialize_enum(&Value::Object(vec![])), Err(mismatch(Expected::Enum, Tag::Object)));
}

#[test]
fn interning_twice_gives_the_same_label() {
    let mut cache = LabelCache::new();
    let a = cache.intern("name");
    let b = cache.intern("other");
    let c = cache.intern("name");
    assert_eq!(a, c);
    assert_ne!(a, b);
    assert_eq!(cache.len(), 2);
    assert_eq!(cache.text(a), "name");
    assert_eq!(cache.text(b), "other");
}

#[test]
fn labels_are_interchangeable_in_objects() {
    let mut cache = LabelCache::new();
    let first = serialize_struct(&mut cache, vec![("id", Some(Value::Number(1)))]);
    let second = serialize_struct(&mut cache, vec![("id", Some(Value::Number(1)))]);
    assert_eq!(first, second);
    assert_eq!(cache.len(), 1);
}

#[test]
fn custom_error_passes_message_through() {
    assert_eq!(Error::custom("bad input".to_string()), Error::Custom("bad input".to_string()));
}

#[test]
fn char_round_trip() {
    let v = serialize_str("é");
    assert_eq!(deserialize_char(&v), Ok('é'));
    assert_eq!(deserialize_char(&serialize_str("ab")), Err(mismatch(Expected::Char, Tag::Str)));
    assert_eq!(deserialize_char(&serialize_str("")), Err(mismatch(Expected::Char, Tag::Str)));
    assert_eq!(deserialize_char(&Value::Null), Err(mismatch(Expected::Char, Tag::Null)));
}

#[test]
fn string_keyed_map_refuses_composite_keys() {
    let ok = serialize_string_keyed_map(vec![(Value::Str("a".to_string()), Value::Number(1))]);
    assert_eq!(ok, Ok(Value::Object(vec![("a".to_string(), Value::Number(1))])));
    let refused = serialize_string_keyed_map(vec![
        (Value::Str("a".to_string()), Value::Number(1)),
        (Value::Number(2), Value::Number(3)),
        (Value::Array(vec![]), Value::Null),
    ]);
    assert_eq!(refused, Err(mismatch(Expected::Str, Tag::Number)));
    assert_eq!(serialize_string_keyed_map(vec![]), Ok(Value::Object(vec![])));
}

#[test]
fn object_map_reads_back_by_key() {
    let v = serialize_map(vec![
        (Value::Str("k".to_string()), Value::Number(1)),
        (Value::Str("j".to_string()), Value::Number(2)),
    ]);
    let entries = deserialize_map(&v).unwrap();
    assert_eq!(field(&entries, "j"), Some(&Value::Number(2)));
    assert_eq!(field(&entries, "k"), Some(&Value::Number(1)));
    assert_eq!(field(&entries, "z"), None);
}

#[test]
fn empty_containers() {
    let mut cache = LabelCache::new();
    assert_eq!(serialize_seq(vec![]), Value::Array(vec![]));
    assert_eq!(serialize_map(vec![]), Value::Object(vec![]));
    assert_eq!(serialize_struct(&mut cache, vec![]), Value::Object(vec![]));
    assert_eq!(cache.len(), 0);
    assert_eq!(deserialize_seq(&Value::Array(vec![])).unwrap().len(), 0);
}

#[test]
fn error_trail_grows_outward() {
    let inner = Located::new(mismatch(Expected::Bool, Tag::Number));
    assert!(inner.path.is_empty());
    let outer = inner.within(Segment::Index(2)).within(Segment::Field("items".to_string()));
    assert_eq!(outer.error, mismatch(Expected::Bool, Tag::Number));
    assert_eq!(outer.path, vec![Segment::Field("items".to_string()), Segment::Index(2)]);
}
