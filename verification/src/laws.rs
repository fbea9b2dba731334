//! The laws of decoding with capture and re-encoding with injection, stated
//! over the models and proved once and for all.

use vstd::prelude::*;

use crate::decode::DecodedMap;
use crate::decode::decode_entries;
use crate::decode::decode_spec;
use crate::decode::entries_have_key;
use crate::decode::fields_model;
use crate::decode::has_field_name;
use crate::decode::is_recognized_key;
use crate::encode::emitted_model;
use crate::encode::encode_spec;
use crate::error::ErrorModel;
use crate::model::ValueModel;
use crate::value::Value;

verus! {

/// The recognized fields of an entry sequence under a schema: the entries
/// whose key bears a recognized name, in their original order, each as name
/// and value.
pub open spec fn recognized_projection(
    entries: Seq<(ValueModel, ValueModel)>,
    names: Seq<Seq<char>>,
) -> Seq<(Seq<char>, ValueModel)>
    decreases entries.len(),
{
    if entries.len() == 0 {
        Seq::empty()
    } else if is_recognized_key(entries[0].0, names) {
        seq![(entries[0].0->Str_0, entries[0].1)] + recognized_projection(
            entries.drop_first(),
            names,
        )
    } else {
        recognized_projection(entries.drop_first(), names)
    }
}

/// The unrecognized entries of an entry sequence under a schema, verbatim
/// and in their original order.
pub open spec fn ignored_projection(
    entries: Seq<(ValueModel, ValueModel)>,
    names: Seq<Seq<char>>,
) -> Seq<(ValueModel, ValueModel)>
    decreases entries.len(),
{
    if entries.len() == 0 {
        Seq::empty()
    } else if is_recognized_key(entries[0].0, names) {
        ignored_projection(entries.drop_first(), names)
    } else {
        seq![entries[0]] + ignored_projection(entries.drop_first(), names)
    }
}

/// The recognized entries of an entry sequence under a schema, verbatim and
/// in their original order.
pub open spec fn recognized_entries(
    entries: Seq<(ValueModel, ValueModel)>,
    names: Seq<Seq<char>>,
) -> Seq<(ValueModel, ValueModel)>
    decreases entries.len(),
{
    if entries.len() == 0 {
        Seq::empty()
    } else if is_recognized_key(entries[0].0, names) {
        seq![entries[0]] + recognized_entries(entries.drop_first(), names)
    } else {
        recognized_entries(entries.drop_first(), names)
    }
}

/// The schema's own re-encoding of recognized fields, at the model level:
/// each field as a string-keyed entry, in order.
pub open spec fn emitted_of(rec: Seq<(Seq<char>, ValueModel)>) -> Seq<(ValueModel, ValueModel)> {
    Seq::new(rec.len(), |i: int| (ValueModel::Str(rec[i].0), rec[i].1))
}

/// A decode that succeeds appends exactly the recognized projection to the
/// recognized fields accumulated so far, and exactly the ignored projection
/// to the entries captured so far.
pub proof fn lemma_decode_entries_ok(
    entries: Seq<(ValueModel, ValueModel)>,
    names: Seq<Seq<char>>,
    rec: Seq<(Seq<char>, ValueModel)>,
    ign: Seq<(ValueModel, ValueModel)>,
)
    requires
        decode_entries(entries, names, rec, ign) is Ok,
    ensures
        decode_entries(entries, names, rec, ign)->Ok_0.recognized == rec + recognized_projection(
            entries,
            names,
        ),
        decode_entries(entries, names, rec, ign)->Ok_0.ignored == ign + ignored_projection(
            entries,
            names,
        ),
    decreases entries.len(),
{
    if entries.len() == 0 {
        assert(rec + recognized_projection(entries, names) =~= rec);
        assert(ign + ignored_projection(entries, names) =~= ign);
    } else {
        let k = entries[0].0;
        let v = entries[0].1;
        if is_recognized_key(k, names) {
            lemma_decode_entries_ok(entries.drop_first(), names, rec.push((k->Str_0, v)), ign);
            assert(rec.push((k->Str_0, v)) + recognized_projection(entries.drop_first(), names)
                =~= rec + recognized_projection(entries, names));
        } else {
            lemma_decode_entries_ok(entries.drop_first(), names, rec, ign.push((k, v)));
            assert(ign.push((k, v)) + ignored_projection(entries.drop_first(), names) =~= ign
                + ignored_projection(entries, names));
        }
    }
}

/// The schema's re-encoding of the recognized projection is exactly the
/// recognized entries of the input, verbatim.
pub proof fn lemma_emitted_recognized(entries: Seq<(ValueModel, ValueModel)>, names: Seq<Seq<char>>)
    ensures
        emitted_of(recognized_projection(entries, names)) == recognized_entries(entries, names),
    decreases entries.len(),
{
    if entries.len() == 0 {
        assert(emitted_of(recognized_projection(entries, names)) =~= recognized_entries(
            entries,
            names,
        ));
    } else {
        lemma_emitted_recognized(entries.drop_first(), names);
        if is_recognized_key(entries[0].0, names) {
            assert(entries[0].0 == ValueModel::Str(entries[0].0->Str_0));
            assert(emitted_of(recognized_projection(entries, names)) =~= recognized_entries(
                entries,
                names,
            ));
        } else {
            assert(emitted_of(recognized_projection(entries, names)) =~= recognized_entries(
                entries,
                names,
            ));
        }
    }
}

/// Round trip with a subset schema: when a map decodes successfully through
/// a schema recognizing a subset of its keys, re-encoding the adapter
/// reproduces every recognized entry, verbatim and in order, followed by
/// every unrecognized entry, verbatim and in order.
pub proof fn lemma_round_trip_subset_schema(input: ValueModel, names: Seq<Seq<char>>)
    requires
        decode_spec(input, names) is Ok,
    ensures
        ({
            let d = decode_spec(input, names)->Ok_0;
            encode_spec(ValueModel::Mapping(emitted_of(d.recognized)), d.ignored) == Ok::<
                ValueModel,
                ErrorModel,
            >(
                ValueModel::Mapping(
                    recognized_entries(input->Mapping_0, names) + ignored_projection(
                        input->Mapping_0,
                        names,
                    ),
                ),
            )
        }),
{
    let entries = input->Mapping_0;
    let d = decode_spec(input, names)->Ok_0;
    lemma_decode_entries_ok(
        entries,
        names,
        Seq::<(Seq<char>, ValueModel)>::empty(),
        Seq::<(ValueModel, ValueModel)>::empty(),
    );
    assert(d.recognized =~= recognized_projection(entries, names));
    assert(d.ignored =~= ignored_projection(entries, names));
    lemma_emitted_recognized(entries, names);
}

/// Container replay idempotence: capturing input generically into the value
/// container preserves its model exactly (see [`crate::value::Value::to_owned`]), and the
/// outcome of a schema decode is a function of the model alone; so decoding
/// a schema from the captured container yields the very result of decoding
/// it from the raw input.
pub proof fn lemma_container_replay_idempotence(
    raw: ValueModel,
    captured: ValueModel,
    names: Seq<Seq<char>>,
)
    requires
        captured == raw,
    ensures
        decode_spec(captured, names) == decode_spec(raw, names),
{
}


/// The executable re-encoder's emission of decoded fields is the model
/// schema's emission of their models: the two ways of reading an adapter's
/// recognized fields agree.
pub proof fn lemma_emitted_model_of_fields(rec: Seq<(String, Value)>)
    ensures
        emitted_model(rec) == emitted_of(fields_model(rec)),
{
    assert(emitted_model(rec) =~= emitted_of(fields_model(rec)));
}

/// Helper for the duplicate-key law: under these conditions the decode must
/// end in a duplicate-ignored-key rejection.
proof fn lemma_duplicate_rejected_rec(
    entries: Seq<(ValueModel, ValueModel)>,
    names: Seq<Seq<char>>,
    rec: Seq<(Seq<char>, ValueModel)>,
    ign: Seq<(ValueModel, ValueModel)>,
)
    requires
        forall|i: int|
            0 <= i < entries.len() && !is_recognized_key((#[trigger] entries[i]).0, names)
                ==> entries[i].0.is_primitive_key(),
        forall|i: int|
            0 <= i < entries.len() && is_recognized_key((#[trigger] entries[i]).0, names)
                ==> !has_field_name(rec, entries[i].0->Str_0),
        forall|i: int, j: int|
            0 <= i < j < entries.len() && is_recognized_key((#[trigger] entries[i]).0, names)
                && is_recognized_key((#[trigger] entries[j]).0, names) ==> entries[i].0->Str_0
                != entries[j].0->Str_0,
        (exists|i: int|
            0 <= i < entries.len() && !is_recognized_key((#[trigger] entries[i]).0, names)
                && entries_have_key(ign, entries[i].0)) || (exists|i: int, j: int|
            0 <= i < j < entries.len() && !is_recognized_key((#[trigger] entries[i]).0, names)
                && !is_recognized_key((#[trigger] entries[j]).0, names) && entries[i].0
                == entries[j].0),
    ensures
        decode_entries(entries, names, rec, ign) matches Err(e) && e is DuplicateIgnoredKey,
    decreases entries.len(),
{
    let rest = entries.drop_first();
    let k = entries[0].0;
    let v = entries[0].1;
    if is_recognized_key(k, names) {
        let rec2 = rec.push((k->Str_0, v));
        assert forall|i: int|
            0 <= i < rest.len() && !is_recognized_key((#[trigger] rest[i]).0, names) implies rest[i].0.is_primitive_key() by {
            assert(rest[i] == entries[i + 1]);
        }
        assert forall|i: int|
            0 <= i < rest.len() && is_recognized_key((#[trigger] rest[i]).0, names) implies !has_field_name(
            rec2,
            rest[i].0->Str_0,
        ) by {
            assert(rest[i] == entries[i + 1]);
            if has_field_name(rec2, rest[i].0->Str_0) {
                let w = choose|w: int| 0 <= w < rec2.len() && (#[trigger] rec2[w]).0 == rest[
                    i
                ].0->Str_0;
                if w < rec.len() {
                    assert(rec[w] == rec2[w]);
                    assert(has_field_name(rec, entries[i + 1].0->Str_0));
                } else {
                    assert(rec2[w].0 == k->Str_0);
                }
            }
        }
        assert forall|i: int, j: int|
            0 <= i < j < rest.len() && is_recognized_key((#[trigger] rest[i]).0, names)
                && is_recognized_key((#[trigger] rest[j]).0, names) implies rest[i].0->Str_0 != rest[
            j
        ].0->Str_0 by {
            assert(rest[i] == entries[i + 1]);
            assert(rest[j] == entries[j + 1]);
        }
        if exists|i: int|
            0 <= i < entries.len() && !is_recognized_key((#[trigger] entries[i]).0, names)
                && entries_have_key(ign, entries[i].0) {
            let i0 = choose|i: int|
                0 <= i < entries.len() && !is_recognized_key((#[trigger] entries[i]).0, names)
                    && entries_have_key(ign, entries[i].0);
            assert(rest[i0 - 1] == entries[i0]);
        } else {
            let (i0, j0): (int, int) = choose|i: int, j: int|
                0 <= i < j < entries.len() && !is_recognized_key((#[trigger] entries[i]).0, names)
                    && !is_recognized_key((#[trigger] entries[j]).0, names) && entries[i].0
                    == entries[j].0;
            assert(rest[i0 - 1] == entries[i0]);
            assert(rest[j0 - 1] == entries[j0]);
        }
        lemma_duplicate_rejected_rec(rest, names, rec2, ign);
    } else {
        assert(k.is_primitive_key());
        if entries_have_key(ign, k) {
        } else {
            let ign2 = ign.push((k, v));
            assert forall|i: int|
                0 <= i < rest.len() && !is_recognized_key((#[trigger] rest[i]).0, names) implies rest[
                i
            ].0.is_primitive_key() by {
                assert(rest[i] == entries[i + 1]);
            }
            assert forall|i: int|
                0 <= i < rest.len() && is_recognized_key((#[trigger] rest[i]).0, names) implies !has_field_name(
                rec,
                rest[i].0->Str_0,
            ) by {
                assert(rest[i] == entries[i + 1]);
            }
            assert forall|i: int, j: int|
                0 <= i < j < rest.len() && is_recognized_key((#[trigger] rest[i]).0, names)
                    && is_recognized_key((#[trigger] rest[j]).0, names) implies rest[i].0->Str_0
                != rest[j].0->Str_0 by {
                assert(rest[i] == entries[i + 1]);
                assert(rest[j] == entries[j + 1]);
            }
            if exists|i: int|
                0 <= i < entries.len() && !is_recognized_key((#[trigger] entries[i]).0, names)
                    && entries_have_key(ign, entries[i].0) {
                let i0 = choose|i: int|
                    0 <= i < entries.len() && !is_recognized_key((#[trigger] entries[i]).0, names)
                        && entries_have_key(ign, entries[i].0);
                assert(i0 != 0);
                assert(rest[i0 - 1] == entries[i0]);
                let w = choose|w: int| 0 <= w < ign.len() && (#[trigger] ign[w]).0 == entries[
                    i0
                ].0;
                assert(ign2[w].0 == entries[i0].0);
                assert(entries_have_key(ign2, rest[i0 - 1].0));
            } else {
                let (i0, j0): (int, int) = choose|i: int, j: int|
                    0 <= i < j < entries.len() && !is_recognized_key(
                        (#[trigger] entries[i]).0,
                        names,
                    ) && !is_recognized_key((#[trigger] entries[j]).0, names) && entries[i].0
                        == entries[j].0;
                if i0 == 0 {
                    assert(rest[j0 - 1] == entries[j0]);
                    assert(ign2[ign.len() as int].0 == k);
                    assert(entries_have_key(ign2, rest[j0 - 1].0));
                } else {
                    assert(rest[i0 - 1] == entries[i0]);
                    assert(rest[j0 - 1] == entries[j0]);
                }
            }
            lemma_duplicate_rejected_rec(rest, names, rec, ign2);
        }
    }
}

/// Duplicate-key rejection: an input map holding two unrecognized entries
/// with an equal key fails to decode with a duplicate-ignored-key error,
/// provided every unrecognized key is primitive and the recognized names
/// are distinct, so that no other rejection strikes first.
pub proof fn lemma_duplicate_key_rejection(input: ValueModel, names: Seq<Seq<char>>)
    requires
        input is Mapping,
        forall|i: int|
            0 <= i < input->Mapping_0.len() && !is_recognized_key(
                (#[trigger] input->Mapping_0[i]).0,
                names,
            ) ==> input->Mapping_0[i].0.is_primitive_key(),
        forall|i: int, j: int|
            0 <= i < j < input->Mapping_0.len() && is_recognized_key(
                (#[trigger] input->Mapping_0[i]).0,
                names,
            ) && is_recognized_key((#[trigger] input->Mapping_0[j]).0, names)
                ==> input->Mapping_0[i].0->Str_0 != input->Mapping_0[j].0->Str_0,
        exists|i: int, j: int|
            0 <= i < j < input->Mapping_0.len() && !is_recognized_key(
                (#[trigger] input->Mapping_0[i]).0,
                names,
            ) && !is_recognized_key((#[trigger] input->Mapping_0[j]).0, names)
                && input->Mapping_0[i].0 == input->Mapping_0[j].0,
    ensures
        decode_spec(input, names) matches Err(e) && e is DuplicateIgnoredKey,
{
    lemma_duplicate_rejected_rec(
        input->Mapping_0,
        names,
        Seq::<(Seq<char>, ValueModel)>::empty(),
        Seq::<(ValueModel, ValueModel)>::empty(),
    );
}

/// Helper for the structured-key law: under these conditions the decode
/// must end in an unsupported-key-shape rejection.
proof fn lemma_structured_rejected_rec(
    entries: Seq<(ValueModel, ValueModel)>,
    names: Seq<Seq<char>>,
    rec: Seq<(Seq<char>, ValueModel)>,
    ign: Seq<(ValueModel, ValueModel)>,
)
    requires
        forall|i: int|
            0 <= i < entries.len() && is_recognized_key((#[trigger] entries[i]).0, names)
                ==> !has_field_name(rec, entries[i].0->Str_0),
        forall|i: int, j: int|
            0 <= i < j < entries.len() && is_recognized_key((#[trigger] entries[i]).0, names)
                && is_recognized_key((#[trigger] entries[j]).0, names) ==> entries[i].0->Str_0
                != entries[j].0->Str_0,
        forall|i: int|
            0 <= i < entries.len() && !is_recognized_key((#[trigger] entries[i]).0, names)
                && entries[i].0.is_primitive_key() ==> !entries_have_key(ign, entries[i].0),
        forall|i: int, j: int|
            0 <= i < j < entries.len() && !is_recognized_key((#[trigger] entries[i]).0, names)
                && !is_recognized_key((#[trigger] entries[j]).0, names)
                && entries[i].0.is_primitive_key() && entries[j].0.is_primitive_key()
                ==> entries[i].0 != entries[j].0,
        exists|i: int|
            0 <= i < entries.len() && !is_recognized_key((#[trigger] entries[i]).0, names)
                && !entries[i].0.is_primitive_key(),
    ensures
        decode_entries(entries, names, rec, ign) == Err::<DecodedMap, ErrorModel>(
            ErrorModel::UnsupportedKeyShape,
        ),
    decreases entries.len(),
{
    let rest = entries.drop_first();
    let k = entries[0].0;
    let v = entries[0].1;
    if is_recognized_key(k, names) {
        let rec2 = rec.push((k->Str_0, v));
        assert forall|i: int|
            0 <= i < rest.len() && is_recognized_key((#[trigger] rest[i]).0, names) implies !has_field_name(
            rec2,
            rest[i].0->Str_0,
        ) by {
            assert(rest[i] == entries[i + 1]);
            if has_field_name(rec2, rest[i].0->Str_0) {
                let w = choose|w: int| 0 <= w < rec2.len() && (#[trigger] rec2[w]).0 == rest[
                    i
                ].0->Str_0;
                if w < rec.len() {
                    assert(rec[w] == rec2[w]);
                    assert(has_field_name(rec, entries[i + 1].0->Str_0));
                } else {
                    assert(rec2[w].0 == k->Str_0);
                }
            }
        }
        assert forall|i: int, j: int|
            0 <= i < j < rest.len() && is_recognized_key((#[trigger] rest[i]).0, names)
                && is_recognized_key((#[trigger] rest[j]).0, names) implies rest[i].0->Str_0 != rest[
            j
        ].0->Str_0 by {
            assert(rest[i] == entries[i + 1]);
            assert(rest[j] == entries[j + 1]);
        }
        assert forall|i: int|
            0 <= i < rest.len() && !is_recognized_key((#[trigger] rest[i]).0, names) && rest[
            i
        ].0.is_primitive_key() implies !entries_have_key(ign, rest[i].0) by {
            assert(rest[i] == entries[i + 1]);
        }
        assert forall|i: int, j: int|
            0 <= i < j < rest.len() && !is_recognized_key((#[trigger] rest[i]).0, names)
                && !is_recognized_key((#[trigger] rest[j]).0, names) && rest[i].0.is_primitive_key()
                && rest[j].0.is_primitive_key() implies rest[i].0 != rest[j].0 by {
            assert(rest[i] == entries[i + 1]);
            assert(rest[j] == entries[j + 1]);
        }
        let i0 = choose|i: int|
            0 <= i < entries.len() && !is_recognized_key((#[trigger] entries[i]).0, names)
                && !entries[i].0.is_primitive_key();
        assert(rest[i0 - 1] == entries[i0]);
        lemma_structured_rejected_rec(rest, names, rec2, ign);
    } else if !k.is_primitive_key() {
    } else {
        assert(!entries_have_key(ign, k));
        let ign2 = ign.push((k, v));
        assert forall|i: int|
            0 <= i < rest.len() && is_recognized_key((#[trigger] rest[i]).0, names) implies !has_field_name(
            rec,
            rest[i].0->Str_0,
        ) by {
            assert(rest[i] == entries[i + 1]);
        }
        assert forall|i: int, j: int|
            0 <= i < j < rest.len() && is_recognized_key((#[trigger] rest[i]).0, names)
                && is_recognized_key((#[trigger] rest[j]).0, names) implies rest[i].0->Str_0 != rest[
            j
        ].0->Str_0 by {
            assert(rest[i] == entries[i + 1]);
            assert(rest[j] == entries[j + 1]);
        }
        assert forall|i: int|
            0 <= i < rest.len() && !is_recognized_key((#[trigger] rest[i]).0, names) && rest[
            i
        ].0.is_primitive_key() implies !entries_have_key(ign2, rest[i].0) by {
            assert(rest[i] == entries[i + 1]);
            if entries_have_key(ign2, rest[i].0) {
                let w = choose|w: int| 0 <= w < ign2.len() && (#[trigger] ign2[w]).0 == rest[i].0;
                if w < ign.len() {
                    assert(ign[w] == ign2[w]);
                    assert(entries_have_key(ign, entries[i + 1].0));
                } else {
                    assert(ign2[w].0 == k);
                }
            }
        }
        assert forall|i: int, j: int|
            0 <= i < j < rest.len() && !is_recognized_key((#[trigger] rest[i]).0, names)
                && !is_recognized_key((#[trigger] rest[j]).0, names) && rest[i].0.is_primitive_key()
                && rest[j].0.is_primitive_key() implies rest[i].0 != rest[j].0 by {
            assert(rest[i] == entries[i + 1]);
            assert(rest[j] == entries[j + 1]);
        }
        let i0 = choose|i: int|
            0 <= i < entries.len() && !is_recognized_key((#[trigger] entries[i]).0, names)
                && !entries[i].0.is_primitive_key();
        assert(i0 != 0);
        assert(rest[i0 - 1] == entries[i0]);
        lemma_structured_rejected_rec(rest, names, rec, ign2);
    }
}

/// Structured-key rejection: an input map holding an unrecognized entry
/// whose key is a sequence or a map fails to decode with an
/// unsupported-key-shape error, provided the recognized names are distinct
/// and the primitive unrecognized keys are distinct, so that no duplicate
/// rejection strikes first.
pub proof fn lemma_structured_key_rejection(input: ValueModel, names: Seq<Seq<char>>)
    requires
        input is Mapping,
        forall|i: int, j: int|
            0 <= i < j < input->Mapping_0.len() && is_recognized_key(
                (#[trigger] input->Mapping_0[i]).0,
                names,
            ) && is_recognized_key((#[trigger] input->Mapping_0[j]).0, names)
                ==> input->Mapping_0[i].0->Str_0 != input->Mapping_0[j].0->Str_0,
        forall|i: int, j: int|
            0 <= i < j < input->Mapping_0.len() && !is_recognized_key(
                (#[trigger] input->Mapping_0[i]).0,
                names,
            ) && !is_recognized_key((#[trigger] input->Mapping_0[j]).0, names)
                && input->Mapping_0[i].0.is_primitive_key()
                && input->Mapping_0[j].0.is_primitive_key() ==> input->Mapping_0[i].0
                != input->Mapping_0[j].0,
        exists|i: int|
            0 <= i < input->Mapping_0.len() && !is_recognized_key(
                (#[trigger] input->Mapping_0[i]).0,
                names,
            ) && (input->Mapping_0[i].0 is Sequence || input->Mapping_0[i].0 is Mapping),
    ensures
        decode_spec(input, names) == Err::<DecodedMap, ErrorModel>(
            ErrorModel::UnsupportedKeyShape,
        ),
{
    let entries = input->Mapping_0;
    let i0 = choose|i: int|
        0 <= i < entries.len() && !is_recognized_key((#[trigger] entries[i]).0, names) && (entries[
            i
        ].0 is Sequence || entries[i].0 is Mapping);
    assert(!entries[i0].0.is_primitive_key());
    lemma_structured_rejected_rec(
        entries,
        names,
        Seq::<(Seq<char>, ValueModel)>::empty(),
        Seq::<(ValueModel, ValueModel)>::empty(),
    );
}

/// The closed-form condition under which one map decode succeeds, given
/// the fields already accumulated: every recognized name is fresh and the
/// recognized names are distinct; every unrecognized key is primitive, not
/// yet captured, and the unrecognized keys are distinct.
pub open spec fn decodes_cleanly(
    entries: Seq<(ValueModel, ValueModel)>,
    names: Seq<Seq<char>>,
    rec: Seq<(Seq<char>, ValueModel)>,
    ign: Seq<(ValueModel, ValueModel)>,
) -> bool {
    &&& forall|i: int|
        0 <= i < entries.len() && is_recognized_key((#[trigger] entries[i]).0, names)
            ==> !has_field_name(rec, entries[i].0->Str_0)
    &&& forall|i: int, j: int|
        0 <= i < j < entries.len() && is_recognized_key((#[trigger] entries[i]).0, names)
            && is_recognized_key((#[trigger] entries[j]).0, names) ==> entries[i].0->Str_0
            != entries[j].0->Str_0
    &&& forall|i: int|
        0 <= i < entries.len() && !is_recognized_key((#[trigger] entries[i]).0, names)
            ==> entries[i].0.is_primitive_key()
    &&& forall|i: int|
        0 <= i < entries.len() && !is_recognized_key((#[trigger] entries[i]).0, names)
            ==> !entries_have_key(ign, entries[i].0)
    &&& forall|i: int, j: int|
        0 <= i < j < entries.len() && !is_recognized_key((#[trigger] entries[i]).0, names)
            && !is_recognized_key((#[trigger] entries[j]).0, names) ==> entries[i].0
            != entries[j].0
}

/// Success is owed exactly on clean inputs: one map decode succeeds if and
/// only if the remaining entries decode cleanly against what has been
/// accumulated so far.
pub proof fn lemma_decode_success_iff(
    entries: Seq<(ValueModel, ValueModel)>,
    names: Seq<Seq<char>>,
    rec: Seq<(Seq<char>, ValueModel)>,
    ign: Seq<(ValueModel, ValueModel)>,
)
    ensures
        decode_entries(entries, names, rec, ign) is Ok <==> decodes_cleanly(
            entries,
            names,
            rec,
            ign,
        ),
    decreases entries.len(),
{
    if entries.len() == 0 {
    } else {
        let rest = entries.drop_first();
        let k = entries[0].0;
        let v = entries[0].1;
        assert forall|i: int| 0 <= i < rest.len() implies rest[i] == entries[i + 1] by {
            assert(rest[i] == entries[i + 1]);
        }
        if is_recognized_key(k, names) {
            if has_field_name(rec, k->Str_0) {
                assert(!decodes_cleanly(entries, names, rec, ign));
            } else {
                let rec2 = rec.push((k->Str_0, v));
                lemma_decode_success_iff(rest, names, rec2, ign);
                assert forall|n: Seq<char>| true implies #[trigger] has_field_name(rec2, n) == (
                has_field_name(rec, n) || n == k->Str_0) by {
                    if has_field_name(rec2, n) {
                        let w = choose|w: int|
                            0 <= w < rec2.len() && (#[trigger] rec2[w]).0 == n;
                        if w < rec.len() {
                            assert(rec[w] == rec2[w]);
                            assert(has_field_name(rec, n));
                        } else {
                            assert(rec2[w].0 == k->Str_0);
                        }
                    }
                    if has_field_name(rec, n) {
                        let w = choose|w: int| 0 <= w < rec.len() && (#[trigger] rec[w]).0 == n;
                        assert(rec2[w] == rec[w]);
                        assert(has_field_name(rec2, n));
                    }
                    if n == k->Str_0 {
                        assert(rec2[rec.len() as int].0 == n);
                        assert(has_field_name(rec2, n));
                    }
                }
                if decodes_cleanly(entries, names, rec, ign) {
                    assert(decodes_cleanly(rest, names, rec2, ign));
                }
                if decodes_cleanly(rest, names, rec2, ign) {
                    assert forall|i: int|
                        0 <= i < entries.len() && is_recognized_key(
                            (#[trigger] entries[i]).0,
                            names,
                        ) implies !has_field_name(rec, entries[i].0->Str_0) by {
                        if i > 0 {
                            assert(rest[i - 1] == entries[i]);
                            assert(!has_field_name(rec2, entries[i].0->Str_0));
                        }
                    }
                    assert forall|i: int, j: int|
                        0 <= i < j < entries.len() && is_recognized_key(
                            (#[trigger] entries[i]).0,
                            names,
                        ) && is_recognized_key((#[trigger] entries[j]).0, names) implies entries[
                        i
                    ].0->Str_0 != entries[j].0->Str_0 by {
                        if i == 0 {
                            assert(rest[j - 1] == entries[j]);
                            assert(!has_field_name(rec2, entries[j].0->Str_0));
                        } else {
                            assert(rest[i - 1] == entries[i]);
                            assert(rest[j - 1] == entries[j]);
                        }
                    }
                    assert forall|i: int|
                        0 <= i < entries.len() && !is_recognized_key(
                            (#[trigger] entries[i]).0,
                            names,
                        ) implies entries[i].0.is_primitive_key() && !entries_have_key(
                        ign,
                        entries[i].0,
                    ) by {
                        assert(rest[i - 1] == entries[i]);
                    }
                    assert forall|i: int, j: int|
                        0 <= i < j < entries.len() && !is_recognized_key(
                            (#[trigger] entries[i]).0,
                            names,
                        ) && !is_recognized_key((#[trigger] entries[j]).0, names) implies entries[
                        i
                    ].0 != entries[j].0 by {
                        assert(rest[i - 1] == entries[i]);
                        assert(rest[j - 1] == entries[j]);
                    }
                    assert(decodes_cleanly(entries, names, rec, ign));
                }
            }
        } else {
            if !k.is_primitive_key() {
                assert(!decodes_cleanly(entries, names, rec, ign));
            } else if entries_have_key(ign, k) {
                assert(!decodes_cleanly(entries, names, rec, ign));
            } else {
                let ign2 = ign.push((k, v));
                lemma_decode_success_iff(rest, names, rec, ign2);
                assert forall|key: ValueModel| true implies #[trigger] entries_have_key(ign2, key)
                    == (entries_have_key(ign, key) || key == k) by {
                    if entries_have_key(ign2, key) {
                        let w = choose|w: int|
                            0 <= w < ign2.len() && (#[trigger] ign2[w]).0 == key;
                        if w < ign.len() {
                            assert(ign[w] == ign2[w]);
                            assert(entries_have_key(ign, key));
                        } else {
                            assert(ign2[w].0 == k);
                        }
                    }
                    if entries_have_key(ign, key) {
                        let w = choose|w: int| 0 <= w < ign.len() && (#[trigger] ign[w]).0 == key;
                        assert(ign2[w] == ign[w]);
                        assert(entries_have_key(ign2, key));
                    }
                    if key == k {
                        assert(ign2[ign.len() as int].0 == k);
                        assert(entries_have_key(ign2, key));
                    }
                }
                if decodes_cleanly(entries, names, rec, ign) {
                    assert(decodes_cleanly(rest, names, rec, ign2));
                }
                if decodes_cleanly(rest, names, rec, ign2) {
                    assert forall|i: int|
                        0 <= i < entries.len() && !is_recognized_key(
                            (#[trigger] entries[i]).0,
                            names,
                        ) implies entries[i].0.is_primitive_key() && !entries_have_key(
                        ign,
                        entries[i].0,
                    ) by {
                        if i > 0 {
                            assert(rest[i - 1] == entries[i]);
                            assert(!entries_have_key(ign2, entries[i].0));
                        }
                    }
                    assert forall|i: int, j: int|
                        0 <= i < j < entries.len() && !is_recognized_key(
                            (#[trigger] entries[i]).0,
                            names,
                        ) && !is_recognized_key((#[trigger] entries[j]).0, names) implies entries[
                        i
                    ].0 != entries[j].0 by {
                        if i == 0 {
                            assert(rest[j - 1] == entries[j]);
                            assert(!entries_have_key(ign2, entries[j].0));
                        } else {
                            assert(rest[i - 1] == entries[i]);
                            assert(rest[j - 1] == entries[j]);
                        }
                    }
                    assert forall|i: int|
                        0 <= i < entries.len() && is_recognized_key(
                            (#[trigger] entries[i]).0,
                            names,
                        ) implies !has_field_name(rec, entries[i].0->Str_0) by {
                        assert(rest[i - 1] == entries[i]);
                    }
                    assert forall|i: int, j: int|
                        0 <= i < j < entries.len() && is_recognized_key(
                            (#[trigger] entries[i]).0,
                            names,
                        ) && is_recognized_key((#[trigger] entries[j]).0, names) implies entries[
                        i
                    ].0->Str_0 != entries[j].0->Str_0 by {
                        assert(rest[i - 1] == entries[i]);
                        assert(rest[j - 1] == entries[j]);
                    }
                    assert(decodes_cleanly(entries, names, rec, ign));
                }
            }
        }
    }
}

/// Success of a whole decode, in closed form: it succeeds exactly when the
/// input is a mapping whose recognized names are distinct and whose
/// unrecognized keys are primitive and distinct.
pub proof fn lemma_decode_spec_success_iff(input: ValueModel, names: Seq<Seq<char>>)
    ensures
        decode_spec(input, names) is Ok <==> (input is Mapping && decodes_cleanly(
            input->Mapping_0,
            names,
            Seq::<(Seq<char>, ValueModel)>::empty(),
            Seq::<(ValueModel, ValueModel)>::empty(),
        )),
{
    if input is Mapping {
        lemma_decode_success_iff(
            input->Mapping_0,
            names,
            Seq::<(Seq<char>, ValueModel)>::empty(),
            Seq::<(ValueModel, ValueModel)>::empty(),
        );
    }
}

} // verus!
