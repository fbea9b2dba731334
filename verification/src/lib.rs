//! Decode a value by a fixed schema while losing none of the key/value data
//! the schema does not request, and re-encode it later with those ignored
//! fields restored.
//!
//! The crate models one map decode as a walk over a [`value::Value`] tree:
//! the map iteration tracker hands each entry to the schema, captures every
//! entry the schema does not claim into an [`fields::IgnoredFields`]
//! container, and the re-encode injector appends the captured entries after
//! the schema's own fields.

pub mod decode;
pub mod encode;
pub mod error;
pub mod fields;
pub mod key;
pub mod laws;
pub mod model;
pub mod tracker;
pub mod value;

use vstd::prelude::*;

verus! {

/// Pairs a schema-decoded value with the container of ignored fields that
/// were captured while decoding it.
#[derive(Debug, Clone, PartialEq)]
pub struct PreserveIgnoredFields<T, U> {
    /// The schema-decoded value.
    pub value: T,
    /// The ignored fields captured alongside it.
    pub ignored_fields: U,
}

impl<T, U> PreserveIgnoredFields<T, U> {
    /// Pair an already decoded value with its ignored fields.
    pub fn new(value: T, ignored_fields: U) -> (r: Self)
        ensures
            r.value == value,
            r.ignored_fields == ignored_fields,
    {
        Self { value, ignored_fields }
    }
}

impl<T> PreserveIgnoredFields<T, fields::IgnoredFields> {
    /// Wrap a value with an empty ignored-field container.
    pub fn from(value: T) -> (r: Self)
        ensures
            r.value == value,
            r.ignored_fields.model() == Seq::<(model::ValueModel, model::ValueModel)>::empty(),
            r.ignored_fields.wf(),
    {
        Self { value, ignored_fields: fields::IgnoredFields::new() }
    }
}

} // verus!
