//! The ignored-field container: an ordered mapping from captured keys to
//! captured values, keys unique by construction, insertion order preserved
//! for later re-encoding.

use vstd::prelude::*;

use crate::error::Error;
use crate::key::Key;
use crate::model::ValueModel;
use crate::value::Value;

verus! {

/// The container that receives every captured ignored field.
///
/// Entries keep their insertion order, which is the order re-encoding
/// replays them in.  Inserting a key equal to one already present is
/// rejected, not overwritten, and a key of a structured shape is rejected
/// outright.
#[derive(Debug, PartialEq)]
pub struct IgnoredFields {
    entries: Vec<(Key, Value)>,
}

impl IgnoredFields {
    /// The mathematical model: the sequence of captured entries, each as the
    /// pair of the key's replayed value and the captured value.
    pub closed spec fn model(self) -> Seq<(ValueModel, ValueModel)> {
        Seq::new(
            self.entries@.len(),
            |i: int| (self.entries@[i].0.model(), self.entries@[i].1.model()),
        )
    }

    /// Well-formed: every key is primitive, and no two keys are equal.
    pub open spec fn wf(self) -> bool {
        &&& forall|i: int| 0 <= i < self.model().len() ==> (#[trigger] self.model()[i].0).is_primitive_key()
        &&& forall|i: int, j: int|
            0 <= i < j < self.model().len() ==> self.model()[i].0 != self.model()[j].0
    }

    /// Whether some entry already has this key.
    pub open spec fn has_key(self, k: ValueModel) -> bool {
        exists|i: int| 0 <= i < self.model().len() && (#[trigger] self.model()[i]).0 == k
    }

    /// A new, empty container.
    pub fn new() -> (r: IgnoredFields)
        ensures
            r.model() == Seq::<(ValueModel, ValueModel)>::empty(),
            r.wf(),
    {
        let r = IgnoredFields { entries: Vec::new() };
        proof {
            assert(r.model() =~= Seq::<(ValueModel, ValueModel)>::empty());
        }
        r
    }

    /// The number of captured ignored fields.
    pub fn len(&self) -> (n: usize)
        ensures
            n == self.model().len(),
    {
        self.entries.len()
    }

    /// Whether there are exactly zero captured ignored fields.
    pub fn is_empty(&self) -> (b: bool)
        ensures
            b == (self.model().len() == 0),
    {
        self.entries.len() == 0
    }

    /// Insert a captured ignored field.
    ///
    /// A key that is not a primitive value cannot be used as an
    /// ignored-field key; a key equal to one already present is rejected,
    /// carrying the key back in the error.  On success the entry is
    /// appended after all existing entries.
    #[verifier::loop_isolation(false)]
    pub fn insert(&mut self, key: Key, value: Value) -> (r: Result<(), Error>)
        requires
            old(self).wf(),
        ensures
            final(self).wf(),
            !key.is_primitive() ==> r == Err::<(), Error>(Error::UnsupportedKeyShape),
            key.is_primitive() && old(self).has_key(key.model()) ==> (r matches Err(e)
                && e == Error::DuplicateIgnoredKey(key)),
            r is Ok <==> (key.is_primitive() && !old(self).has_key(key.model())),
            r is Ok ==> final(self).model() == old(self).model().push(
                (key.model(), value.model()),
            ),
            r is Err ==> final(self).model() == old(self).model(),
    {
        if !key.primitive() {
            return Err(Error::UnsupportedKeyShape);
        }
        let mut i: usize = 0;
        while i < self.entries.len()
            invariant
                i <= self.entries@.len(),
                forall|j: int| 0 <= j < i as int ==> self.model()[j].0 != key.model(),
            decreases self.entries@.len() - i,
        {
            if self.entries[i].0.same_as(&key) {
                proof {
                    assert(self.model()[i as int].0 == key.model());
                }
                return Err(Error::DuplicateIgnoredKey(key));
            }
            i += 1;
        }
        proof {
            assert(!self.has_key(key.model()));
        }
        let ghost before = self.model();
        self.entries.push((key, value));
        proof {
            assert(self.model() =~= before.push((key.model(), value.model())));
        }
        Ok(())
    }

    /// The captured key of the entry at this position, replayed as a value,
    /// paired with a copy of the captured value.
    pub fn entry_at(&self, i: usize) -> (kv: (Value, Value))
        requires
            self.wf(),
            i < self.model().len(),
        ensures
            kv.0.model() == self.model()[i as int].0,
            kv.1.model() == self.model()[i as int].1,
    {
        let k = match self.entries[i].0.replay() {
            Ok(k) => k,
            Err(_) => {
                proof {
                    assert(self.model()[i as int].0.is_primitive_key());
                    assert(false);
                }
                Value::Unit
            },
        };
        let v = self.entries[i].1.to_owned();
        (k, v)
    }
}

} // verus!
