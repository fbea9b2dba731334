//! Decoding a map through a schema while capturing every entry the schema
//! does not recognize.
//!
//! The schema is modelled by the set of field names it recognizes: it claims
//! each entry whose key is a string bearing one of those names and decodes
//! its value as given, and it performs the unrecognized-field probe for
//! every other entry, which routes the pair into the ignored-field
//! container.

use vstd::prelude::*;

use crate::PreserveIgnoredFields;
use crate::error::Error;
use crate::error::ErrorModel;
use crate::fields::IgnoredFields;
use crate::key::Key;
use crate::model::ValueModel;
use crate::tracker::MapTracker;
use crate::value::Value;

verus! {

/// The names of the fields a schema recognizes, as mathematics.
pub open spec fn names_of(schema: Seq<String>) -> Seq<Seq<char>> {
    Seq::new(schema.len(), |i: int| schema[i]@)
}

/// Whether a key is a string bearing one of the schema's field names.
pub open spec fn is_recognized_key(k: ValueModel, names: Seq<Seq<char>>) -> bool {
    k is Str && names.contains(k->Str_0)
}

/// Whether the accumulated recognized fields already bear this name.
pub open spec fn has_field_name(rec: Seq<(Seq<char>, ValueModel)>, name: Seq<char>) -> bool {
    exists|i: int| 0 <= i < rec.len() && (#[trigger] rec[i]).0 == name
}

/// Whether the accumulated ignored entries already have this key.
pub open spec fn entries_have_key(s: Seq<(ValueModel, ValueModel)>, k: ValueModel) -> bool {
    exists|i: int| 0 <= i < s.len() && (#[trigger] s[i]).0 == k
}

/// What one map decode through a schema produces: the recognized fields, in
/// order, and the captured ignored entries, in order.
pub struct DecodedMap {
    /// The entries the schema recognized and decoded, name and value.
    pub recognized: Seq<(Seq<char>, ValueModel)>,
    /// The entries the schema did not recognize, key and value.
    pub ignored: Seq<(ValueModel, ValueModel)>,
}

/// One map decode, entry by entry, over the remaining entries.
///
/// Each entry is claimed by the schema when its key bears a recognized
/// name — twice the same name is the schema's own duplicate-field error —
/// and is otherwise captured: a structured key cannot be captured, and a
/// key equal to an already captured one is rejected.
pub open spec fn decode_entries(
    entries: Seq<(ValueModel, ValueModel)>,
    names: Seq<Seq<char>>,
    rec: Seq<(Seq<char>, ValueModel)>,
    ign: Seq<(ValueModel, ValueModel)>,
) -> Result<DecodedMap, ErrorModel>
    decreases entries.len(),
{
    if entries.len() == 0 {
        Ok(DecodedMap { recognized: rec, ignored: ign })
    } else {
        let k = entries[0].0;
        let v = entries[0].1;
        if is_recognized_key(k, names) {
            if has_field_name(rec, k->Str_0) {
                Err(ErrorModel::DuplicateField(k->Str_0))
            } else {
                decode_entries(entries.drop_first(), names, rec.push((k->Str_0, v)), ign)
            }
        } else {
            if !k.is_primitive_key() {
                Err(ErrorModel::UnsupportedKeyShape)
            } else if entries_have_key(ign, k) {
                Err(ErrorModel::DuplicateIgnoredKey(k))
            } else {
                decode_entries(entries.drop_first(), names, rec, ign.push((k, v)))
            }
        }
    }
}

/// One whole decode through a schema: the input must be map shaped, and its
/// entries are processed in order.
pub open spec fn decode_spec(input: ValueModel, names: Seq<Seq<char>>) -> Result<
    DecodedMap,
    ErrorModel,
> {
    if input is Mapping {
        decode_entries(
            input->Mapping_0,
            names,
            Seq::<(Seq<char>, ValueModel)>::empty(),
            Seq::<(ValueModel, ValueModel)>::empty(),
        )
    } else {
        Err(ErrorModel::UnexpectedShape)
    }
}

/// Draining a map's remaining entries after the schema stopped early: every
/// entry is captured in order, under the same key rules as any other
/// ignored field.
pub open spec fn drain_entries(
    entries: Seq<(ValueModel, ValueModel)>,
    ign: Seq<(ValueModel, ValueModel)>,
) -> Result<Seq<(ValueModel, ValueModel)>, ErrorModel>
    decreases entries.len(),
{
    if entries.len() == 0 {
        Ok(ign)
    } else {
        let k = entries[0].0;
        if !k.is_primitive_key() {
            Err(ErrorModel::UnsupportedKeyShape)
        } else if entries_have_key(ign, k) {
            Err(ErrorModel::DuplicateIgnoredKey(k))
        } else {
            drain_entries(entries.drop_first(), ign.push(entries[0]))
        }
    }
}

/// The model of the schema-decoded part of an adapter: its fields in order,
/// each as name and value model.
pub open spec fn fields_model(rec: Seq<(String, Value)>) -> Seq<(Seq<char>, ValueModel)> {
    Seq::new(rec.len(), |i: int| (rec[i].0@, rec[i].1.model()))
}

/// The schema's look at one decoded key: the recognized field name it
/// bears, if any.
#[verifier::loop_isolation(false)]
fn recognized_of(raw_key: &Value, schema: &Vec<String>) -> (r: Option<String>)
    ensures
        r matches Some(name) ==> is_recognized_key(raw_key.model(), names_of(schema@))
            && name@ == raw_key.model()->Str_0,
        r is None ==> !is_recognized_key(raw_key.model(), names_of(schema@)),
{
    match raw_key {
        Value::Text(s) => {
            let mut i: usize = 0;
            while i < schema.len()
                invariant
                    i <= schema@.len(),
                    forall|j: int| 0 <= j < i as int ==> names_of(schema@)[j] != s@,
                decreases schema@.len() - i,
            {
                if *s == schema[i] {
                    proof {
                        assert(names_of(schema@)[i as int] == s@);
                        assert(names_of(schema@).contains(s@));
                    }
                    return Some(s.clone());
                }
                i += 1;
            }
            proof {
                assert(!names_of(schema@).contains(s@));
            }
            None
        },
        _ => None,
    }
}

/// Whether one of the already recognized fields bears this name.
#[verifier::loop_isolation(false)]
fn contains_name(rec: &Vec<(String, Value)>, name: &String) -> (b: bool)
    ensures
        b == has_field_name(fields_model(rec@), name@),
{
    let mut i: usize = 0;
    while i < rec.len()
        invariant
            i <= rec@.len(),
            forall|j: int| 0 <= j < i as int ==> (#[trigger] fields_model(rec@)[j]).0 != name@,
        decreases rec@.len() - i,
    {
        if rec[i].0 == *name {
            proof {
                assert(fields_model(rec@)[i as int].0 == name@);
            }
            return true;
        }
        i += 1;
    }
    false
}

/// Decode a map-shaped value through a schema that recognizes the given
/// field names, capturing every unrecognized entry.
///
/// On success the adapter pairs the schema-decoded fields, in input order,
/// with the container of captured ignored fields, in input order; the exact
/// outcome, error cases included, is [`decode_spec`] of the input's model.
#[verifier::loop_isolation(false)]
pub fn decode_with_schema(input: &Value, schema: &Vec<String>) -> (r: Result<
    PreserveIgnoredFields<Vec<(String, Value)>, IgnoredFields>,
    Error,
>)
    ensures
        r is Ok <==> decode_spec(input.model(), names_of(schema@)) is Ok,
        r matches Ok(a) ==> {
            let d = decode_spec(input.model(), names_of(schema@))->Ok_0;
            &&& fields_model(a.value@) == d.recognized
            &&& a.ignored_fields.model() == d.ignored
            &&& a.ignored_fields.wf()
        },
        r matches Err(e) ==> e.model() == decode_spec(input.model(), names_of(schema@))->Err_0,
{
    let ghost names = names_of(schema@);
    let entries = match input {
        Value::Mapping(es) => es,
        _ => {
            return Err(Error::UnexpectedShape);
        },
    };
    let ghost all = input.model()->Mapping_0;
    let mut tracker = MapTracker::new();
    let mut fields = IgnoredFields::new();
    let mut recognized: Vec<(String, Value)> = Vec::new();
    let mut i: usize = 0;
    proof {
        assert(all.skip(0) =~= all);
        assert(fields_model(recognized@) =~= Seq::<(Seq<char>, ValueModel)>::empty());
    }
    while i < entries.len()
        invariant
            i <= entries@.len(),
            tracker.mode() is Ready,
            fields.wf(),
            decode_entries(all, names, Seq::empty(), Seq::empty()) == decode_entries(
                all.skip(i as int),
                names,
                fields_model(recognized@),
                fields.model(),
            ),
        decreases entries@.len() - i,
    {
        proof {
            assert(all[i as int] == (entries@[i as int].0.model(), entries@[i as int].1.model()));
            assert(all.skip(i as int)[0] == all[i as int]);
            assert(all.skip(i as int).drop_first() =~= all.skip(i as int + 1));
        }
        let raw_key = &entries[i].0;
        let captured = Key::capture(raw_key);
        tracker.record_key(captured);
        match recognized_of(raw_key, schema) {
            Some(name) => {
                if contains_name(&recognized, &name) {
                    return Err(Error::DuplicateField(name));
                }
                tracker.value_recognized();
                let value = entries[i].1.to_owned();
                let ghost rec_before = fields_model(recognized@);
                recognized.push((name, value));
                proof {
                    assert(fields_model(recognized@) =~= rec_before.push(
                        (all[i as int].0->Str_0, all[i as int].1),
                    ));
                }
            },
            None => {
                let value = entries[i].1.to_owned();
                match tracker.capture_ignored(value, &mut fields) {
                    Ok(_) => {
                    },
                    Err(e) => {
                        return Err(e);
                    },
                }
            },
        }
        i += 1;
    }
    tracker.record_end();
    proof {
        assert(all.skip(i as int) =~= Seq::<(ValueModel, ValueModel)>::empty());
    }
    Ok(PreserveIgnoredFields::new(recognized, fields))
}

/// Decode through the generic value container: capture the input
/// generically into the container first, then decode the schema from the
/// captured container.
///
/// Capture is lossless, and the outcome of a schema decode depends on the
/// input's model alone, so the result is exactly that of decoding the
/// schema from the raw input directly.
pub fn decode_via_container(input: &Value, schema: &Vec<String>) -> (r: Result<
    PreserveIgnoredFields<Vec<(String, Value)>, IgnoredFields>,
    Error,
>)
    ensures
        r is Ok <==> decode_spec(input.model(), names_of(schema@)) is Ok,
        r matches Ok(a) ==> {
            let d = decode_spec(input.model(), names_of(schema@))->Ok_0;
            &&& fields_model(a.value@) == d.recognized
            &&& a.ignored_fields.model() == d.ignored
            &&& a.ignored_fields.wf()
        },
        r matches Err(e) ==> e.model() == decode_spec(input.model(), names_of(schema@))->Err_0,
{
    let container = input.to_owned();
    decode_with_schema(&container, schema)
}

/// Capture every remaining entry of a map whose schema stopped early.
///
/// This is the teardown drain: it must run before the map cursor is
/// released, so that no portion of the original map is silently dropped;
/// the first entry that cannot be captured aborts it with that error.
#[verifier::loop_isolation(false)]
pub fn drain_remaining(
    entries: &Vec<(Value, Value)>,
    start: usize,
    tracker: &mut MapTracker,
    fields: &mut IgnoredFields,
) -> (r: Result<(), Error>)
    requires
        old(tracker).mode() is Ready,
        old(fields).wf(),
        start <= entries@.len(),
    ensures
        final(tracker).mode() is Ready,
        final(tracker).wf(),
        final(fields).wf(),
        ({
            let outcome = drain_entries(entry_models(entries@).skip(start as int), old(fields).model());
            &&& (r is Ok <==> outcome is Ok)
            &&& (r is Ok ==> final(fields).model() == outcome->Ok_0)
            &&& (r matches Err(e) ==> e.model() == outcome->Err_0)
        }),
{
    let ghost all = entry_models(entries@);
    let mut i: usize = start;
    while i < entries.len()
        invariant
            start <= i <= entries@.len(),
            tracker.mode() is Ready,
            fields.wf(),
            drain_entries(all.skip(start as int), old(fields).model()) == drain_entries(
                all.skip(i as int),
                fields.model(),
            ),
        decreases entries@.len() - i,
    {
        proof {
            assert(all[i as int] == (entries@[i as int].0.model(), entries@[i as int].1.model()));
            assert(all.skip(i as int)[0] == all[i as int]);
            assert(all.skip(i as int).drop_first() =~= all.skip(i as int + 1));
        }
        let value = entries[i].1.to_owned();
        match tracker.capture_remaining(&entries[i].0, value, fields) {
            Ok(_) => {
            },
            Err(e) => {
                return Err(e);
            },
        }
        i += 1;
    }
    proof {
        assert(all.skip(i as int) =~= Seq::<(ValueModel, ValueModel)>::empty());
    }
    Ok(())
}

/// The models of a vector of raw entries, in order.
pub open spec fn entry_models(es: Seq<(Value, Value)>) -> Seq<(ValueModel, ValueModel)> {
    Seq::new(es.len(), |i: int| (es[i].0.model(), es[i].1.model()))
}

} // verus!
