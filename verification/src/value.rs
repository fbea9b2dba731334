//! The generic value container: an owned, recursive tagged union able to hold
//! any node of self-describing data, used to capture ignored fields
//! losslessly.

use vstd::prelude::*;

use crate::model::ValueModel;

verus! {

broadcast use vstd::std_specs::vec::group_vec_axioms;

/// One node of captured self-describing data.
///
/// Every primitive width is kept exactly; floating point numbers are carried
/// as their bit patterns, so that re-encoding can restore them untouched.
/// A mapping keeps its entries as a sequence, in input order, because
/// re-encoding must replay them in that order; keys of nested mappings may be
/// of any shape and are not required to be unique.
#[derive(Debug, PartialEq)]
pub enum Value {
    /// The unit value.
    Unit,
    /// An absent optional value.
    Absent,
    /// A present optional value.
    Present(Box<Value>),
    /// A boolean.
    Bool(bool),
    /// An 8-bit signed integer.
    I8(i8),
    /// A 16-bit signed integer.
    I16(i16),
    /// A 32-bit signed integer.
    I32(i32),
    /// A 64-bit signed integer.
    I64(i64),
    /// A 128-bit signed integer.
    I128(i128),
    /// An 8-bit unsigned integer.
    U8(u8),
    /// A 16-bit unsigned integer.
    U16(u16),
    /// A 32-bit unsigned integer.
    U32(u32),
    /// A 64-bit unsigned integer.
    U64(u64),
    /// A 128-bit unsigned integer.
    U128(u128),
    /// A 32-bit floating point number, carried as its bit pattern.
    F32Bits(u32),
    /// A 64-bit floating point number, carried as its bit pattern.
    F64Bits(u64),
    /// A character.
    Char(char),
    /// A text string.
    Text(String),
    /// A byte string.
    Bytes(Vec<u8>),
    /// An ordered sequence of values.
    Sequence(Vec<Value>),
    /// An ordered mapping, kept as its sequence of key/value entries.
    Mapping(Vec<(Value, Value)>),
}

impl Value {
    /// The mathematical model of this value.
    pub open spec fn model(self) -> ValueModel
        decreases self,
    {
        match self {
            Value::Unit => ValueModel::Unit,
            Value::Absent => ValueModel::Absent,
            Value::Present(b) => ValueModel::Present(Box::new((*b).model())),
            Value::Bool(x) => ValueModel::Bool(x),
            Value::I8(x) => ValueModel::I8(x),
            Value::I16(x) => ValueModel::I16(x),
            Value::I32(x) => ValueModel::I32(x),
            Value::I64(x) => ValueModel::I64(x),
            Value::I128(x) => ValueModel::I128(x),
            Value::U8(x) => ValueModel::U8(x),
            Value::U16(x) => ValueModel::U16(x),
            Value::U32(x) => ValueModel::U32(x),
            Value::U64(x) => ValueModel::U64(x),
            Value::U128(x) => ValueModel::U128(x),
            Value::F32Bits(x) => ValueModel::F32Bits(x),
            Value::F64Bits(x) => ValueModel::F64Bits(x),
            Value::Char(x) => ValueModel::Char(x),
            Value::Text(s) => ValueModel::Str(s@),
            Value::Bytes(b) => ValueModel::Bytes(b@),
            Value::Sequence(items) => ValueModel::Sequence(
                Seq::new(
                    items@.len(),
                    |i: int|
                        if 0 <= i < items@.len() {
                            proof {
                                assert(decreases_to!(items => items@));
                                assert(decreases_to!(items@ => items@[i]));
                            }
                            items@[i].model()
                        } else {
                            ValueModel::Unit
                        },
                ),
            ),
            Value::Mapping(entries) => ValueModel::Mapping(
                Seq::new(
                    entries@.len(),
                    |i: int|
                        if 0 <= i < entries@.len() {
                            proof {
                                assert(decreases_to!(entries => entries@));
                                assert(decreases_to!(entries@ => entries@[i]));
                            }
                            (entries@[i].0.model(), entries@[i].1.model())
                        } else {
                            (ValueModel::Unit, ValueModel::Unit)
                        },
                ),
            ),
        }
    }

    /// Recursively produce an independent copy of this value.
    ///
    /// This is also exactly what decoding a value generically out of the
    /// container again yields: a value with the same model.
    #[verifier::loop_isolation(false)]
    pub fn to_owned(&self) -> (r: Value)
        ensures
            r.model() == self.model(),
        decreases *self,
    {
        match self {
            Value::Unit => Value::Unit,
            Value::Absent => Value::Absent,
            Value::Present(b) => Value::Present(Box::new((&**b).to_owned())),
            Value::Bool(x) => Value::Bool(*x),
            Value::I8(x) => Value::I8(*x),
            Value::I16(x) => Value::I16(*x),
            Value::I32(x) => Value::I32(*x),
            Value::I64(x) => Value::I64(*x),
            Value::I128(x) => Value::I128(*x),
            Value::U8(x) => Value::U8(*x),
            Value::U16(x) => Value::U16(*x),
            Value::U32(x) => Value::U32(*x),
            Value::U64(x) => Value::U64(*x),
            Value::U128(x) => Value::U128(*x),
            Value::F32Bits(x) => Value::F32Bits(*x),
            Value::F64Bits(x) => Value::F64Bits(*x),
            Value::Char(x) => Value::Char(*x),
            Value::Text(s) => Value::Text(s.clone()),
            Value::Bytes(b) => Value::Bytes(copy_bytes(b)),
            Value::Sequence(items) => {
                let mut out: Vec<Value> = Vec::new();
                let mut i: usize = 0;
                while i < items.len()
                    invariant
                        i <= items@.len(),
                        out@.len() == i as int,
                        forall|j: int| 0 <= j < i as int ==> out@[j].model() == items@[j].model(),
                    decreases items@.len() - i,
                {
                    proof {
                        assert(decreases_to!(*items => items@));
                        assert(decreases_to!(items@ => items@[i as int]));
                    }
                    let x = items[i].to_owned();
                    out.push(x);
                    i += 1;
                }
                proof {
                    assert(Value::Sequence(out).model()->Sequence_0 =~= self.model()->Sequence_0);
                }
                Value::Sequence(out)
            },
            Value::Mapping(entries) => {
                let mut out: Vec<(Value, Value)> = Vec::new();
                let mut i: usize = 0;
                while i < entries.len()
                    invariant
                        i <= entries@.len(),
                        out@.len() == i as int,
                        forall|j: int|
                            0 <= j < i as int ==> out@[j].0.model() == entries@[j].0.model()
                                && out@[j].1.model() == entries@[j].1.model(),
                    decreases entries@.len() - i,
                {
                    proof {
                        assert(decreases_to!(*entries => entries@));
                        assert(decreases_to!(entries@ => entries@[i as int]));
                    }
                    let k = entries[i].0.to_owned();
                    let v = entries[i].1.to_owned();
                    out.push((k, v));
                    i += 1;
                }
                proof {
                    assert(Value::Mapping(out).model()->Mapping_0 =~= self.model()->Mapping_0);
                }
                Value::Mapping(out)
            },
        }
    }
}

/// Copy a byte string.
pub(crate) fn copy_bytes(b: &Vec<u8>) -> (r: Vec<u8>)
    ensures
        r@ == b@,
{
    let mut out: Vec<u8> = Vec::new();
    let mut i: usize = 0;
    while i < b.len()
        invariant
            i <= b@.len(),
            out@ == b@.subrange(0, i as int),
        decreases b@.len() - i,
    {
        out.push(b[i]);
        i += 1;
    }
    proof {
        assert(out@ =~= b@);
    }
    out
}

} // verus!
