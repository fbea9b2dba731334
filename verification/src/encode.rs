//! Re-encoding with injection: wrapping the schema's own encoding of a
//! value so that the captured ignored fields are appended after the
//! schema-driven fields.

use vstd::prelude::*;

use crate::PreserveIgnoredFields;
use crate::error::Error;
use crate::error::ErrorModel;
use crate::fields::IgnoredFields;
use crate::model::ValueModel;
use crate::value::Value;

verus! {

/// What injecting ignored entries into a schema-encoded value produces.
///
/// A map keeps its own entries first and the ignored entries after them; an
/// absent or unit-like value is normalized to an empty map, so a value with
/// zero schema fields still encodes; a present optional value encodes as
/// the value inside it; any other shape cannot carry ignored fields.
pub open spec fn encode_spec(schema_output: ValueModel, ign: Seq<(ValueModel, ValueModel)>) -> Result<
    ValueModel,
    ErrorModel,
>
    decreases schema_output,
{
    match schema_output {
        ValueModel::Mapping(es) => Ok(ValueModel::Mapping(es + ign)),
        ValueModel::Unit => Ok(ValueModel::Mapping(ign)),
        ValueModel::Absent => Ok(ValueModel::Mapping(ign)),
        ValueModel::Present(inner) => encode_spec(*inner, ign),
        _ => Err(ErrorModel::UnsupportedEncodeShape),
    }
}

/// The capacity hint handed to the underlying map encode: the schema's own
/// declared count plus the count of ignored fields, or no hint when the
/// schema gave none or the sum does not fit.
pub fn encode_capacity(schema_len: Option<usize>, ignored_len: usize) -> (r: Option<usize>)
    ensures
        match schema_len {
            Some(n) => {
                if n + ignored_len <= usize::MAX {
                    r == Some((n + ignored_len) as usize)
                } else {
                    r is None
                }
            },
            None => r is None,
        },
{
    match schema_len {
        Some(n) => n.checked_add(ignored_len),
        None => None,
    }
}

/// Inject the captured ignored entries into the schema's encoded output,
/// after the schema's own entries.
#[verifier::loop_isolation(false)]
pub fn inject_ignored(schema_output: &Value, ignored: &IgnoredFields) -> (r: Result<Value, Error>)
    requires
        ignored.wf(),
    ensures
        r is Ok <==> encode_spec(schema_output.model(), ignored.model()) is Ok,
        r matches Ok(v) ==> v.model() == encode_spec(schema_output.model(), ignored.model())->Ok_0,
        r matches Err(e) ==> e.model() == encode_spec(schema_output.model(), ignored.model())->Err_0,
    decreases *schema_output,
{
    match schema_output {
        Value::Mapping(es) => {
            let mut out: Vec<(Value, Value)> = Vec::new();
            let ghost own = schema_output.model()->Mapping_0;
            let mut i: usize = 0;
            while i < es.len()
                invariant
                    i <= es@.len(),
                    out@.len() == i as int,
                    forall|j: int|
                        0 <= j < i as int ==> (#[trigger] out@[j]).0.model() == own[j].0
                            && out@[j].1.model() == own[j].1,
                decreases es@.len() - i,
            {
                let k = es[i].0.to_owned();
                let v = es[i].1.to_owned();
                out.push((k, v));
                i += 1;
            }
            append_ignored(&mut out, ignored);
            let r = Value::Mapping(out);
            proof {
                assert(r.model()->Mapping_0 =~= own + ignored.model());
            }
            Ok(r)
        },
        Value::Unit => Ok(empty_with_ignored(ignored)),
        Value::Absent => Ok(empty_with_ignored(ignored)),
        Value::Present(inner) => inject_ignored(&**inner, ignored),
        _ => Err(Error::UnsupportedEncodeShape),
    }
}

/// The map that an absent or unit-like schema output normalizes to: its
/// entries are exactly the ignored entries.
#[verifier::loop_isolation(false)]
fn empty_with_ignored(ignored: &IgnoredFields) -> (r: Value)
    requires
        ignored.wf(),
    ensures
        r.model() == ValueModel::Mapping(ignored.model()),
{
    let mut out: Vec<(Value, Value)> = Vec::new();
    append_ignored(&mut out, ignored);
    let r = Value::Mapping(out);
    proof {
        assert(r.model()->Mapping_0 =~= ignored.model());
    }
    r
}

/// Append every ignored entry, in container order, after the entries
/// already emitted.
#[verifier::loop_isolation(false)]
fn append_ignored(out: &mut Vec<(Value, Value)>, ignored: &IgnoredFields)
    requires
        ignored.wf(),
    ensures
        final(out)@.len() == old(out)@.len() + ignored.model().len(),
        forall|j: int|
            0 <= j < old(out)@.len() ==> (#[trigger] final(out)@[j]) == old(out)@[j],
        forall|j: int|
            old(out)@.len() <= j < final(out)@.len() ==> (#[trigger] final(out)@[j]).0.model()
                == ignored.model()[j - old(out)@.len()].0 && final(out)@[j].1.model()
                == ignored.model()[j - old(out)@.len()].1,
{
    let base = out.len();
    let count = ignored.len();
    let mut i: usize = 0;
    while i < count
        invariant
            i <= ignored.model().len(),
            out@.len() == base + i as int,
            forall|j: int| 0 <= j < base ==> (#[trigger] out@[j]) == old(out)@[j],
            forall|j: int|
                base <= j < out@.len() ==> (#[trigger] out@[j]).0.model() == ignored.model()[j
                    - base].0 && out@[j].1.model() == ignored.model()[j - base].1,
        decreases count - i,
    {
        let kv = ignored.entry_at(i);
        out.push(kv);
        i += 1;
    }
}

/// The schema's own encoding of the model schema's decoded fields: each
/// recognized field, in order, as a string-keyed entry.
pub open spec fn emitted_model(rec: Seq<(String, Value)>) -> Seq<(ValueModel, ValueModel)> {
    Seq::new(rec.len(), |i: int| (ValueModel::Str(rec[i].0@), rec[i].1.model()))
}

/// Re-encode an adapter decoded by the model schema: the schema emits its
/// own fields in its own order, and the ignored entries follow them.
#[verifier::loop_isolation(false)]
pub fn encode_adapter(adapter: &PreserveIgnoredFields<Vec<(String, Value)>, IgnoredFields>) -> (r:
    Value)
    requires
        adapter.ignored_fields.wf(),
    ensures
        r.model() == ValueModel::Mapping(
            emitted_model(adapter.value@) + adapter.ignored_fields.model(),
        ),
{
    let mut out: Vec<(Value, Value)> = Vec::new();
    let mut i: usize = 0;
    while i < adapter.value.len()
        invariant
            i <= adapter.value@.len(),
            out@.len() == i as int,
            forall|j: int|
                0 <= j < i as int ==> (#[trigger] out@[j]).0.model() == emitted_model(
                    adapter.value@,
                )[j].0 && out@[j].1.model() == emitted_model(adapter.value@)[j].1,
        decreases adapter.value@.len() - i,
    {
        let name = adapter.value[i].0.clone();
        let v = adapter.value[i].1.to_owned();
        out.push((Value::Text(name), v));
        i += 1;
    }
    append_ignored(&mut out, &adapter.ignored_fields);
    let r = Value::Mapping(out);
    proof {
        assert(r.model()->Mapping_0 =~= emitted_model(adapter.value@)
            + adapter.ignored_fields.model());
    }
    r
}

} // verus!
