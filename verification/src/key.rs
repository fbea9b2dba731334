//! Key capture: mirroring a map key's concrete primitive value into a side
//! channel, and replaying it later as an ignored-field key.

use vstd::prelude::*;

use crate::error::Error;
use crate::model::ValueModel;
use crate::value::Value;
use crate::value::copy_bytes;

verus! {

/// A captured map key.
///
/// Only primitive, non-structured shapes can be replayed as the key of an
/// ignored field; a structured key is recorded as an opaque placeholder
/// marker, which fails deterministically if it is ever used as one.
#[derive(Debug, PartialEq)]
pub enum Key {
    /// A boolean key.
    Bool(bool),
    /// An 8-bit signed integer key.
    I8(i8),
    /// A 16-bit signed integer key.
    I16(i16),
    /// A 32-bit signed integer key.
    I32(i32),
    /// A 64-bit signed integer key.
    I64(i64),
    /// A 128-bit signed integer key.
    I128(i128),
    /// An 8-bit unsigned integer key.
    U8(u8),
    /// A 16-bit unsigned integer key.
    U16(u16),
    /// A 32-bit unsigned integer key.
    U32(u32),
    /// A 64-bit unsigned integer key.
    U64(u64),
    /// A 128-bit unsigned integer key.
    U128(u128),
    /// A 32-bit floating point key, carried as its bit pattern.
    F32Bits(u32),
    /// A 64-bit floating point key, carried as its bit pattern.
    F64Bits(u64),
    /// A character key.
    Char(char),
    /// A text string key.
    Text(String),
    /// A byte string key.
    Bytes(Vec<u8>),
    /// Placeholder for a key that decoded as a sequence.
    SequenceMarker,
    /// Placeholder for a key that decoded as a map.
    MappingMarker,
    /// Placeholder for a key of any other non-primitive shape.
    OtherMarker,
}

impl Key {
    /// A key that can be replayed as an ignored-field key; placeholders for
    /// structured shapes cannot.
    pub open spec fn is_primitive(self) -> bool {
        !(self is SequenceMarker || self is MappingMarker || self is OtherMarker)
    }

    /// The value this key replays as.  The placeholder markers replay as the
    /// empty shape they stand for, but [`Key::replay`] refuses them.
    pub open spec fn model(self) -> ValueModel {
        match self {
            Key::Bool(x) => ValueModel::Bool(x),
            Key::I8(x) => ValueModel::I8(x),
            Key::I16(x) => ValueModel::I16(x),
            Key::I32(x) => ValueModel::I32(x),
            Key::I64(x) => ValueModel::I64(x),
            Key::I128(x) => ValueModel::I128(x),
            Key::U8(x) => ValueModel::U8(x),
            Key::U16(x) => ValueModel::U16(x),
            Key::U32(x) => ValueModel::U32(x),
            Key::U64(x) => ValueModel::U64(x),
            Key::U128(x) => ValueModel::U128(x),
            Key::F32Bits(x) => ValueModel::F32Bits(x),
            Key::F64Bits(x) => ValueModel::F64Bits(x),
            Key::Char(x) => ValueModel::Char(x),
            Key::Text(s) => ValueModel::Str(s@),
            Key::Bytes(b) => ValueModel::Bytes(b@),
            Key::SequenceMarker => ValueModel::Sequence(Seq::empty()),
            Key::MappingMarker => ValueModel::Mapping(Seq::empty()),
            Key::OtherMarker => ValueModel::Unit,
        }
    }

    /// Whether this key can be replayed as an ignored-field key.
    pub fn primitive(&self) -> (b: bool)
        ensures
            b == self.is_primitive(),
    {
        match self {
            Key::SequenceMarker => false,
            Key::MappingMarker => false,
            Key::OtherMarker => false,
            _ => true,
        }
    }

    /// Capture the key of a raw map entry.
    ///
    /// A primitive key is mirrored exactly; a structured key yields only the
    /// placeholder marker of its shape.
    pub fn capture(raw: &Value) -> (k: Key)
        ensures
            raw.model().is_primitive_key() ==> k.is_primitive() && k.model() == raw.model(),
            !raw.model().is_primitive_key() ==> !k.is_primitive(),
    {
        match raw {
            Value::Bool(x) => Key::Bool(*x),
            Value::I8(x) => Key::I8(*x),
            Value::I16(x) => Key::I16(*x),
            Value::I32(x) => Key::I32(*x),
            Value::I64(x) => Key::I64(*x),
            Value::I128(x) => Key::I128(*x),
            Value::U8(x) => Key::U8(*x),
            Value::U16(x) => Key::U16(*x),
            Value::U32(x) => Key::U32(*x),
            Value::U64(x) => Key::U64(*x),
            Value::U128(x) => Key::U128(*x),
            Value::F32Bits(x) => Key::F32Bits(*x),
            Value::F64Bits(x) => Key::F64Bits(*x),
            Value::Char(x) => Key::Char(*x),
            Value::Text(s) => Key::Text(s.clone()),
            Value::Bytes(b) => Key::Bytes(copy_bytes(b)),
            Value::Sequence(_) => Key::SequenceMarker,
            Value::Mapping(_) => Key::MappingMarker,
            Value::Unit => Key::OtherMarker,
            Value::Absent => Key::OtherMarker,
            Value::Present(_) => Key::OtherMarker,
        }
    }

    /// Replay a captured key as a value, so that it can be handed to the
    /// ignored-field container or re-encoded.  A placeholder marker cannot
    /// be replayed: only primitive keys are supported for ignored fields.
    pub fn replay(&self) -> (r: Result<Value, Error>)
        ensures
            self.is_primitive() <==> r is Ok,
            r is Ok ==> r->Ok_0.model() == self.model(),
            r is Err ==> r->Err_0 == Error::UnsupportedKeyShape,
    {
        match self {
            Key::Bool(x) => Ok(Value::Bool(*x)),
            Key::I8(x) => Ok(Value::I8(*x)),
            Key::I16(x) => Ok(Value::I16(*x)),
            Key::I32(x) => Ok(Value::I32(*x)),
            Key::I64(x) => Ok(Value::I64(*x)),
            Key::I128(x) => Ok(Value::I128(*x)),
            Key::U8(x) => Ok(Value::U8(*x)),
            Key::U16(x) => Ok(Value::U16(*x)),
            Key::U32(x) => Ok(Value::U32(*x)),
            Key::U64(x) => Ok(Value::U64(*x)),
            Key::U128(x) => Ok(Value::U128(*x)),
            Key::F32Bits(x) => Ok(Value::F32Bits(*x)),
            Key::F64Bits(x) => Ok(Value::F64Bits(*x)),
            Key::Char(x) => Ok(Value::Char(*x)),
            Key::Text(s) => Ok(Value::Text(s.clone())),
            Key::Bytes(b) => Ok(Value::Bytes(copy_bytes(b))),
            Key::SequenceMarker => Err(Error::UnsupportedKeyShape),
            Key::MappingMarker => Err(Error::UnsupportedKeyShape),
            Key::OtherMarker => Err(Error::UnsupportedKeyShape),
        }
    }

    /// Compare two captured keys by the value they replay as.
    pub fn same_as(&self, other: &Key) -> (r: bool)
        ensures
            r == (self.model() == other.model()),
    {
        match (self, other) {
            (Key::Bool(a), Key::Bool(b)) => a == b,
            (Key::I8(a), Key::I8(b)) => a == b,
            (Key::I16(a), Key::I16(b)) => a == b,
            (Key::I32(a), Key::I32(b)) => a == b,
            (Key::I64(a), Key::I64(b)) => a == b,
            (Key::I128(a), Key::I128(b)) => a == b,
            (Key::U8(a), Key::U8(b)) => a == b,
            (Key::U16(a), Key::U16(b)) => a == b,
            (Key::U32(a), Key::U32(b)) => a == b,
            (Key::U64(a), Key::U64(b)) => a == b,
            (Key::U128(a), Key::U128(b)) => a == b,
            (Key::F32Bits(a), Key::F32Bits(b)) => a == b,
            (Key::F64Bits(a), Key::F64Bits(b)) => a == b,
            (Key::Char(a), Key::Char(b)) => a == b,
            (Key::Text(a), Key::Text(b)) => *a == *b,
            (Key::Bytes(a), Key::Bytes(b)) => bytes_match(a, b),
            (Key::SequenceMarker, Key::SequenceMarker) => true,
            (Key::MappingMarker, Key::MappingMarker) => true,
            (Key::OtherMarker, Key::OtherMarker) => true,
            _ => false,
        }
    }
}

/// Compare two byte strings for equality.
fn bytes_match(a: &Vec<u8>, b: &Vec<u8>) -> (r: bool)
    ensures
        r == (a@ == b@),
{
    if a.len() != b.len() {
        proof {
            assert(a@.len() != b@.len());
        }
        return false;
    }
    let mut i: usize = 0;
    while i < a.len()
        invariant
            i <= a@.len(),
            a@.len() == b@.len(),
            forall|j: int| 0 <= j < i as int ==> a@[j] == b@[j],
        decreases a@.len() - i,
    {
        if a[i] != b[i] {
            return false;
        }
        i += 1;
    }
    proof {
        assert(a@ =~= b@);
    }
    true
}

} // verus!
