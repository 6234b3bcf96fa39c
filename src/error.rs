//! Conversion errors.
use vstd::prelude::*;
use crate::value::Tag;

verus! {

/// What a consumer asked a dynamic value to be.
#[derive(Clone, Copy, Debug, PartialEq, Eq, Structural)]
pub enum Expected {
    Unit,
    Bool,
    /// An integral number in `lo..=hi`.
    Integer { lo: i128, hi: i128 },
    Char,
    Str,
    Sequence,
    Mapping,
    Struct,
    Enum,
}

/// A failed conversion.
#[derive(Debug, PartialEq)]
pub enum Error {
    /// Raised by the value being converted, passed through as it is.
    Custom(String),
    /// The dynamic value's kind (or, for an integer, its value) does not fit
    /// the requested shape.
    TypeMismatch { expected: Expected, found: Tag },
}

/// One step of the way from a value down to one of its parts.
#[derive(Debug, PartialEq)]
pub enum Segment {
    /// A struct field or an object key, by name.
    Field(String),
    /// An element of a sequence, or an entry of a map, by position.
    Index(usize),
}

/// An error with the way down to where it arose, outermost step first. The
/// way is for reading only: nothing decides on it.
#[derive(Debug, PartialEq)]
pub struct Located {
    pub error: Error,
    pub path: Vec<Segment>,
}

impl Located {
    /// An error where the conversion of one value began.
    pub fn new(error: Error) -> (r: Located)
        ensures
            r.error == error,
            r.path@ == Seq::<Segment>::empty(),
    {
        Located { error, path: Vec::new() }
    }

    /// The same error, seen from the value that holds the one where it
    /// arose, one `segment` further out.
    pub fn within(self, segment: Segment) -> (r: Located)
        ensures
            r.error == self.error,
            r.path@ == seq![segment] + self.path@,
    {
        let mut path = self.path;
        let ghost inner = path@;
        path.insert(0, segment);
        assert(path@ =~= seq![segment] + inner);
        Located { error: self.error, path }
    }
}

impl Error {
    /// An error raised by the value being converted.
    pub fn custom(message: String) -> (r: Error)
        ensures
            r matches Error::Custom(m) && m@ == message@,
    {
        Error::Custom(message)
    }

    pub open spec fn mismatch(expected: Expected, found: Tag) -> Error {
        Error::TypeMismatch { expected, found }
    }
}

} // verus!
