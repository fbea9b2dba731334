use serde_ignored_fields::PreserveIgnoredFields;
use serde_ignored_fields::decode::decode_with_schema;
use serde_ignored_fields::encode::encode_adapter;
use serde_ignored_fields::fields::IgnoredFields;
use serde_ignored_fields::key::Key;
use serde_ignored_fields::value::Value;

fn text(s: &str) -> Value {
    Value::Text(String::from(s))
}

fn key(s: &str) -> Key {
    Key::Text(String::from(s))
}

fn schema(names: &[&str]) -> Vec<String> {
    names.iter().map(|n| String::from(*n)).collect()
}

fn mapping(entries: Vec<(&str, Value)>) -> Value {
    Value::Mapping(entries.into_iter().map(|(k, v)| (text(k), v)).collect())
}

/// The document with two fields beyond the recognized ones.
fn zohan_input() -> Value {
    mapping(vec![
        ("name", text("Zohan")),
        ("hobby", text("hair-dressing")),
        ("glasses", Value::Bool(false)),
        ("friends", friends()),
    ])
}

fn friends() -> Value {
    Value::Sequence(vec![
        mapping(vec![("name", text("Scrappy")), ("species", text("dog"))]),
        mapping(vec![("name", text("Coco")), ("species", text("dog"))]),
    ])
}

fn zohan_ignored() -> IgnoredFields {
    let mut ignored = IgnoredFields::new();
    ignored.insert(key("glasses"), Value::Bool(false)).unwrap();
    ignored.insert(key("friends"), friends()).unwrap();
    ignored
}

fn zohan_recognized() -> Vec<(String, Value)> {
    vec![
        (String::from("name"), text("Zohan")),
        (String::from("hobby"), text("hair-dressing")),
    ]
}

fn check_zohan_decode() {
    let decoded = decode_with_schema(&zohan_input(), &schema(&["name", "hobby"])).unwrap();
    assert_eq!(decoded.value, zohan_recognized());
    assert_eq!(decoded.ignored_fields, zohan_ignored());
}

fn check_zohan_encode() {
    let adapter = PreserveIgnoredFields::new(zohan_recognized(), zohan_ignored());
    let encoded = encode_adapter(&adapter);
    assert_eq!(encoded, zohan_input());
}

#[test]
fn deserialize_deserialize_extra() {
    check_zohan_decode();
}

#[test]
fn serde_json_deserialize_extra() {
    check_zohan_decode();
}

#[test]
fn serde_json_serialize_extra() {
    check_zohan_encode();
}

#[test]
fn serde_yaml_deserialize_extra() {
    check_zohan_decode();
}

#[test]
fn serde_yaml_serialize_extra() {
    check_zohan_encode();
}

#[test]
fn toml_deserialize_extra() {
    check_zohan_decode();
}

#[test]
fn toml_serialize_extra() {
    check_zohan_encode();
}

#[test]
fn serialize_serialize_extra() {
    check_zohan_encode();
}

#[test]
fn round_trip_adjecently_tagged_enum() {
    // An adjacently tagged union is two strictly sequential sibling keys:
    // the discriminant, then the payload; no look-ahead is needed, so an
    // ignored field at the outer level survives the round trip.
    let input = mapping(vec![
        ("type", text("A")),
        ("data", mapping(vec![("field1", text("Hello")), ("field2", text("World!"))])),
        ("extra", mapping(vec![("something", Value::I64(5))])),
    ]);
    let decoded = decode_with_schema(&input, &schema(&["type", "data"])).unwrap();
    assert_eq!(
        decoded.value,
        vec![
            (String::from("type"), text("A")),
            (
                String::from("data"),
                mapping(vec![("field1", text("Hello")), ("field2", text("World!"))])
            ),
        ]
    );
    let mut expected_ignored = IgnoredFields::new();
    expected_ignored
        .insert(key("extra"), mapping(vec![("something", Value::I64(5))]))
        .unwrap();
    assert_eq!(decoded.ignored_fields, expected_ignored);

    let encoded = encode_adapter(&decoded);
    assert_eq!(encoded, input);
}

#[test]
fn internally_tagged_union_loses_ignored_fields() {
    // A tagged union whose discriminant and payload are merged at the same
    // map level needs look-ahead across sibling keys: its decoder buffers
    // the whole map, so the capture layer sees every entry as recognized
    // and the extra entry never reaches the ignored-field container.  The
    // round trip then fails to reproduce it.
    let input = mapping(vec![
        ("type", text("A")),
        ("field1", text("Hello")),
        ("field2", text("World!")),
        ("extra", mapping(vec![("something", Value::I64(5))])),
    ]);
    // Buffering claims every entry, the extra one included.
    let buffering_schema = schema(&["type", "field1", "field2", "extra"]);
    let decoded = decode_with_schema(&input, &buffering_schema).unwrap();
    assert!(decoded.ignored_fields.is_empty());

    // The union keeps only its own fields when re-encoding.
    let kept: Vec<(String, Value)> = decoded
        .value
        .into_iter()
        .filter(|(name, _)| name != "extra")
        .collect();
    let adapter = PreserveIgnoredFields::new(kept, decoded.ignored_fields);
    let encoded = encode_adapter(&adapter);
    assert_ne!(encoded, input);
    assert_eq!(
        encoded,
        mapping(vec![
            ("type", text("A")),
            ("field1", text("Hello")),
            ("field2", text("World!")),
        ])
    );
}
