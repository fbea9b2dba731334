//! Errors of decoding with capture and of re-encoding with injection.

use vstd::prelude::*;

use crate::key::Key;
use crate::model::ValueModel;

verus! {

/// The abstract form of an [`Error`], over value models.
pub enum ErrorModel {
    /// Two captured ignored fields shared this key.
    DuplicateIgnoredKey(ValueModel),
    /// An ignored field's key was of a structured shape.
    UnsupportedKeyShape,
    /// The schema saw two recognized fields with this name.
    DuplicateField(Seq<char>),
    /// The decoded input was not map shaped where the schema needed a map.
    UnexpectedShape,
    /// Only a map or struct shape can carry re-injected ignored fields.
    UnsupportedEncodeShape,
}

/// An error that aborts a decode or re-encode.
///
/// A duplicate key among the captured ignored fields and a structured
/// ignored-field key are data errors of the capture layer itself; the other
/// variants stand for the errors the schema or the format reports in the
/// same situations.
#[derive(Debug, PartialEq)]
pub enum Error {
    /// Insertion into the ignored-field container found an existing equal
    /// key; the offending key is carried along.
    DuplicateIgnoredKey(Key),
    /// An ignored field's key decoded as a sequence, a map, or another
    /// structured shape, which cannot serve as a container key.
    UnsupportedKeyShape,
    /// The schema was handed the same recognized field twice.
    DuplicateField(String),
    /// The input handed to a map-shaped schema was not a mapping.
    UnexpectedShape,
    /// Re-encoding was asked for a shape other than a map or struct, which
    /// cannot carry ignored fields.
    UnsupportedEncodeShape,
}

impl Error {
    /// The mathematical model of this error.
    pub open spec fn model(self) -> ErrorModel {
        match self {
            Error::DuplicateIgnoredKey(k) => ErrorModel::DuplicateIgnoredKey(k.model()),
            Error::UnsupportedKeyShape => ErrorModel::UnsupportedKeyShape,
            Error::DuplicateField(name) => ErrorModel::DuplicateField(name@),
            Error::UnexpectedShape => ErrorModel::UnexpectedShape,
            Error::UnsupportedEncodeShape => ErrorModel::UnsupportedEncodeShape,
        }
    }

    /// A short description of the error.
    pub fn message(&self) -> &'static str {
        match self {
            Error::DuplicateIgnoredKey(_) => "duplicate key among the ignored fields",
            Error::UnsupportedKeyShape => {
                "key of an ignored field is not a primitive value, only primitive keys are supported"
            },
            Error::DuplicateField(_) => "duplicate recognized field",
            Error::UnexpectedShape => "invalid type: expected a map",
            Error::UnsupportedEncodeShape => {
                "invalid type: can only re-encode a map or struct with ignored fields"
            },
        }
    }
}

} // verus!
