use serde_ignored_fields::PreserveIgnoredFields;
use serde_ignored_fields::decode::decode_via_container;
use serde_ignored_fields::decode::decode_with_schema;
use serde_ignored_fields::decode::drain_remaining;
use serde_ignored_fields::encode::encode_adapter;
use serde_ignored_fields::encode::encode_capacity;
use serde_ignored_fields::encode::inject_ignored;
use serde_ignored_fields::error::Error;
use serde_ignored_fields::fields::IgnoredFields;
use serde_ignored_fields::key::Key;
use serde_ignored_fields::tracker::MapTracker;
use serde_ignored_fields::value::Value;

fn text(s: &str) -> Value {
    Value::Text(String::from(s))
}

fn key(s: &str) -> Key {
    Key::Text(String::from(s))
}

fn schema(names: &[&str]) -> Vec<String> {
    names.iter().map(|n| String::from(*n)).collect()
}

fn mapping(entries: Vec<(&str, Value)>) -> Value {
    Value::Mapping(entries.into_iter().map(|(k, v)| (text(k), v)).collect())
}

#[test]
fn decode_rejects_non_map_input() {
    assert_eq!(
        decode_with_schema(&Value::Bool(true), &schema(&["a"])).unwrap_err(),
        Error::UnexpectedShape
    );
    assert_eq!(
        decode_with_schema(&Value::Sequence(vec![]), &schema(&[])).unwrap_err(),
        Error::UnexpectedShape
    );
}

#[test]
fn decode_rejects_duplicate_ignored_key() {
    // Two unrecognized entries share an equal key.
    let input = mapping(vec![
        ("name", text("n")),
        ("extra", Value::U8(1)),
        ("extra", Value::U8(2)),
    ]);
    assert_eq!(
        decode_with_schema(&input, &schema(&["name"])).unwrap_err(),
        Error::DuplicateIgnoredKey(key("extra"))
    );
}

#[test]
fn duplicate_keys_of_other_shapes_are_detected() {
    // Keys equal by value, whatever their width or shape.
    let input = Value::Mapping(vec![
        (Value::U32(7), Value::Unit),
        (Value::U32(7), Value::Bool(false)),
    ]);
    assert_eq!(
        decode_with_schema(&input, &schema(&[])).unwrap_err(),
        Error::DuplicateIgnoredKey(Key::U32(7))
    );
}

#[test]
fn decode_rejects_sequence_key() {
    let input = Value::Mapping(vec![
        (Value::Sequence(vec![Value::U8(1)]), Value::Bool(true)),
    ]);
    assert_eq!(
        decode_with_schema(&input, &schema(&["name"])).unwrap_err(),
        Error::UnsupportedKeyShape
    );
}

#[test]
fn decode_rejects_map_key() {
    let input = Value::Mapping(vec![
        (text("name"), text("n")),
        (Value::Mapping(vec![]), Value::Bool(true)),
    ]);
    assert_eq!(
        decode_with_schema(&input, &schema(&["name"])).unwrap_err(),
        Error::UnsupportedKeyShape
    );
}

#[test]
fn decode_rejects_duplicate_recognized_field() {
    let input = mapping(vec![("name", text("a")), ("name", text("b"))]);
    assert_eq!(
        decode_with_schema(&input, &schema(&["name"])).unwrap_err(),
        Error::DuplicateField(String::from("name"))
    );
}

#[test]
fn decode_accepts_non_string_ignored_keys() {
    let input = Value::Mapping(vec![
        (Value::Bool(true), Value::U8(1)),
        (Value::Char('z'), Value::U8(2)),
        (Value::I64(-4), Value::U8(3)),
    ]);
    let decoded = decode_with_schema(&input, &schema(&["name"])).unwrap();
    assert!(decoded.value.is_empty());
    assert_eq!(decoded.ignored_fields.len(), 3);
    assert_eq!(decoded.ignored_fields.entry_at(0), (Value::Bool(true), Value::U8(1)));
    assert_eq!(decoded.ignored_fields.entry_at(2), (Value::I64(-4), Value::U8(3)));
}

#[test]
fn empty_map_decodes_empty() {
    let decoded = decode_with_schema(&mapping(vec![]), &schema(&["name"])).unwrap();
    assert!(decoded.value.is_empty());
    assert!(decoded.ignored_fields.is_empty());
}

#[test]
fn replaying_the_container_decodes_identically() {
    // Capturing the input generically and decoding the schema from the
    // captured container gives the same outcome as decoding it directly.
    let input = mapping(vec![
        ("name", text("n")),
        ("extra", mapping(vec![("deep", Value::U8(1))])),
    ]);
    let direct = decode_with_schema(&input, &schema(&["name"])).unwrap();
    let via_container = decode_via_container(&input, &schema(&["name"])).unwrap();
    assert_eq!(direct.value, via_container.value);
    assert_eq!(direct.ignored_fields, via_container.ignored_fields);
}

#[test]
fn inject_appends_after_schema_fields() {
    let mut ignored = IgnoredFields::new();
    ignored.insert(key("b"), Value::U8(2)).unwrap();
    let out = inject_ignored(&mapping(vec![("a", Value::U8(1))]), &ignored).unwrap();
    assert_eq!(out, mapping(vec![("a", Value::U8(1)), ("b", Value::U8(2))]));
}

#[test]
fn inject_normalizes_absent_to_empty_map() {
    let mut ignored = IgnoredFields::new();
    ignored.insert(key("b"), Value::U8(2)).unwrap();
    assert_eq!(
        inject_ignored(&Value::Unit, &ignored).unwrap(),
        mapping(vec![("b", Value::U8(2))])
    );
    assert_eq!(
        inject_ignored(&Value::Absent, &ignored).unwrap(),
        mapping(vec![("b", Value::U8(2))])
    );
    assert_eq!(
        inject_ignored(&Value::Unit, &IgnoredFields::new()).unwrap(),
        Value::Mapping(vec![])
    );
}

#[test]
fn inject_unwraps_present_values() {
    let ignored = IgnoredFields::new();
    let wrapped = Value::Present(Box::new(mapping(vec![("a", Value::U8(1))])));
    assert_eq!(
        inject_ignored(&wrapped, &ignored).unwrap(),
        mapping(vec![("a", Value::U8(1))])
    );
}

#[test]
fn inject_rejects_scalar_shapes() {
    let ignored = IgnoredFields::new();
    assert_eq!(
        inject_ignored(&Value::Bool(true), &ignored).unwrap_err(),
        Error::UnsupportedEncodeShape
    );
    assert_eq!(
        inject_ignored(&Value::Sequence(vec![]), &ignored).unwrap_err(),
        Error::UnsupportedEncodeShape
    );
    assert_eq!(
        inject_ignored(&text("x"), &ignored).unwrap_err(),
        Error::UnsupportedEncodeShape
    );
}

#[test]
fn capacity_adds_the_ignored_count() {
    assert_eq!(encode_capacity(Some(2), 3), Some(5));
    assert_eq!(encode_capacity(Some(0), 0), Some(0));
    assert_eq!(encode_capacity(None, 3), None);
    assert_eq!(encode_capacity(Some(usize::MAX), 1), None);
}

#[test]
fn drain_captures_everything_left() {
    // The schema stopped early after consuming the first entry; the drain
    // captures the rest, in order.
    let entries: Vec<(Value, Value)> = vec![
        (text("seen"), Value::U8(0)),
        (text("left1"), Value::U8(1)),
        (text("left2"), Value::U8(2)),
    ];
    let mut tracker = MapTracker::new();
    let mut fields = IgnoredFields::new();
    drain_remaining(&entries, 1, &mut tracker, &mut fields).unwrap();
    assert_eq!(fields.len(), 2);
    assert_eq!(fields.entry_at(0), (text("left1"), Value::U8(1)));
    assert_eq!(fields.entry_at(1), (text("left2"), Value::U8(2)));
}

#[test]
fn drain_reports_unsupported_keys() {
    let entries: Vec<(Value, Value)> = vec![(Value::Sequence(vec![]), Value::U8(1))];
    let mut tracker = MapTracker::new();
    let mut fields = IgnoredFields::new();
    assert_eq!(
        drain_remaining(&entries, 0, &mut tracker, &mut fields),
        Err(Error::UnsupportedKeyShape)
    );
}

#[test]
fn round_trip_keeps_recognized_first_then_ignored_in_order() {
    // The ignored fields keep only their order among themselves; their
    // position among the recognized fields is not reconstructed.
    let input = mapping(vec![
        ("x1", Value::U8(1)),
        ("name", text("n")),
        ("x2", Value::U8(2)),
        ("hobby", text("h")),
    ]);
    let decoded = decode_with_schema(&input, &schema(&["name", "hobby"])).unwrap();
    let encoded = encode_adapter(&decoded);
    assert_eq!(
        encoded,
        mapping(vec![
            ("name", text("n")),
            ("hobby", text("h")),
            ("x1", Value::U8(1)),
            ("x2", Value::U8(2)),
        ])
    );
}

#[test]
fn adapter_pairs_value_and_fields() {
    let adapter: PreserveIgnoredFields<u32, IgnoredFields> =
        PreserveIgnoredFields::new(7, IgnoredFields::new());
    assert_eq!(adapter.value, 7);
    assert!(adapter.ignored_fields.is_empty());
}
