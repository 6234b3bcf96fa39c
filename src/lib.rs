//! A bridge between the generic serialization data model and the dynamic
//! value model of a JavaScript host.
//!
//! `value` holds the dynamic value model, `number` the mapping of integers
//! onto double-precision numbers, `labels` the cache of field names and enum
//! tags, `ser` the producer and `de` the consumer. `laws` proves what holds
//! of the two together: values read back as they were written, a skipped
//! field leaves no key, and the exact range of integers.
pub mod de;
pub mod error;
pub mod labels;
pub mod laws;
pub mod number;
pub mod ser;
pub mod value;

pub use error::{Error, Expected, Located, Segment};
pub use value::{Tag, Value};
