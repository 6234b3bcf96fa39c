//! The host's dynamic values.
use vstd::prelude::*;

verus! {

/// A dynamic value of the host, as a closed set of runtime kinds.
///
/// Numbers are the host's doubles. One whose value is an integer is held as
/// that integer; any other (a fraction, an infinity, not-a-number) is held as
/// its IEEE-754 bits, which this library carries through and never reads.
#[derive(Debug, PartialEq)]
pub enum Value {
    Null,
    Undefined,
    Bool(bool),
    Number(i128),
    NonIntegral(u64),
    Str(String),
    Array(Vec<Value>),
    /// A plain object: string keys, in insertion order.
    Object(Vec<(String, Value)>),
    /// A native map: keys of any kind, in insertion order.
    NativeMap(Vec<(Value, Value)>),
    /// A native set, in insertion order.
    NativeSet(Vec<Value>),
}

/// The runtime kind of a dynamic value.
#[derive(Clone, Copy, Debug, PartialEq, Eq, Structural)]
pub enum Tag {
    Null,
    Undefined,
    Bool,
    Number,
    Str,
    Array,
    Object,
    NativeMap,
    NativeSet,
}

impl Value {
    pub open spec fn tag_of(&self) -> Tag {
        match self {
            Value::Null => Tag::Null,
            Value::Undefined => Tag::Undefined,
            Value::Bool(_) => Tag::Bool,
            Value::Number(_) => Tag::Number,
            Value::NonIntegral(_) => Tag::Number,
            Value::Str(_) => Tag::Str,
            Value::Array(_) => Tag::Array,
            Value::Object(_) => Tag::Object,
            Value::NativeMap(_) => Tag::NativeMap,
            Value::NativeSet(_) => Tag::NativeSet,
        }
    }

    /// The runtime kind of this value.
    pub fn tag(&self) -> (r: Tag)
        ensures
            r == self.tag_of(),
    {
        match self {
            Value::Null => Tag::Null,
            Value::Undefined => Tag::Undefined,
            Value::Bool(_) => Tag::Bool,
            Value::Number(_) => Tag::Number,
            Value::NonIntegral(_) => Tag::Number,
            Value::Str(_) => Tag::Str,
            Value::Array(_) => Tag::Array,
            Value::Object(_) => Tag::Object,
            Value::NativeMap(_) => Tag::NativeMap,
            Value::NativeSet(_) => Tag::NativeSet,
        }
    }

    /// Null or undefined: the host's two ways of saying "nothing".
    pub open spec fn is_absent(&self) -> bool {
        self is Null || self is Undefined
    }
}

} // verus!
