//! Mathematical model of a node of self-describing data.
//!
//! Every executable data type of this crate is specified against this model:
//! two values are interchangeable for decoding and re-encoding exactly when
//! their models agree.

use vstd::prelude::*;

verus! {

/// One node of self-describing data, as mathematics: strings are character
/// sequences, byte buffers are byte sequences, sequences and mappings are
/// `Seq`s of models.  A mapping is kept as its entry sequence, so that entry
/// order — which re-encoding must preserve — is part of the model.
pub enum ValueModel {
    /// The unit value.
    Unit,
    /// An absent optional value.
    Absent,
    /// A present optional value.
    Present(Box<ValueModel>),
    /// A boolean.
    Bool(bool),
    /// An 8-bit signed integer.
    I8(i8),
    /// A 16-bit signed integer.
    I16(i16),
    /// A 32-bit signed integer.
    I32(i32),
    /// A 64-bit signed integer.
    I64(i64),
    /// A 128-bit signed integer.
    I128(i128),
    /// An 8-bit unsigned integer.
    U8(u8),
    /// A 16-bit unsigned integer.
    U16(u16),
    /// A 32-bit unsigned integer.
    U32(u32),
    /// A 64-bit unsigned integer.
    U64(u64),
    /// A 128-bit unsigned integer.
    U128(u128),
    /// A 32-bit floating point number, carried as its bit pattern.
    F32Bits(u32),
    /// A 64-bit floating point number, carried as its bit pattern.
    F64Bits(u64),
    /// A character.
    Char(char),
    /// A text string.
    Str(Seq<char>),
    /// A byte string.
    Bytes(Seq<u8>),
    /// An ordered sequence of values.
    Sequence(Seq<ValueModel>),
    /// An ordered mapping, kept as its sequence of key/value entries.
    Mapping(Seq<(ValueModel, ValueModel)>),
}

impl ValueModel {
    /// A value that can serve as the key of a captured ignored field:
    /// a primitive, non-structured shape.
    pub open spec fn is_primitive_key(self) -> bool {
        match self {
            ValueModel::Bool(_) => true,
            ValueModel::I8(_) => true,
            ValueModel::I16(_) => true,
            ValueModel::I32(_) => true,
            ValueModel::I64(_) => true,
            ValueModel::I128(_) => true,
            ValueModel::U8(_) => true,
            ValueModel::U16(_) => true,
            ValueModel::U32(_) => true,
            ValueModel::U64(_) => true,
            ValueModel::U128(_) => true,
            ValueModel::F32Bits(_) => true,
            ValueModel::F64Bits(_) => true,
            ValueModel::Char(_) => true,
            ValueModel::Str(_) => true,
            ValueModel::Bytes(_) => true,
            _ => false,
        }
    }

    /// The entry sequence of a mapping value; meaningful only when the value
    /// is a mapping.
    pub open spec fn entries(self) -> Seq<(ValueModel, ValueModel)>
        recommends
            self is Mapping,
    {
        self->Mapping_0
    }
}

} // verus!
