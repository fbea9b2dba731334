use serde_ignored_fields::error::Error;
use serde_ignored_fields::fields::IgnoredFields;
use serde_ignored_fields::key::Key;
use serde_ignored_fields::tracker::MapTracker;
use serde_ignored_fields::value::Value;

fn text(s: &str) -> Value {
    Value::Text(String::from(s))
}

fn key(s: &str) -> Key {
    Key::Text(String::from(s))
}

#[test]
fn to_owned_copies_deeply() {
    let v = Value::Mapping(vec![
        (text("a"), Value::Sequence(vec![Value::I8(-3), Value::U128(7)])),
        (Value::Bool(true), Value::Present(Box::new(Value::Bytes(vec![1, 2, 3])))),
        (Value::F64Bits(0x4009_21fb_5444_2d18), Value::Absent),
    ]);
    let copy = v.to_owned();
    assert_eq!(copy, v);
}

#[test]
fn capture_mirrors_primitives() {
    assert_eq!(Key::capture(&Value::Bool(true)), Key::Bool(true));
    assert_eq!(Key::capture(&Value::U64(9)), Key::U64(9));
    assert_eq!(Key::capture(&text("hi")), key("hi"));
    assert_eq!(Key::capture(&Value::Bytes(vec![4, 5])), Key::Bytes(vec![4, 5]));
    assert_eq!(Key::capture(&Value::Char('x')), Key::Char('x'));
    assert_eq!(Key::capture(&Value::F32Bits(0x3f80_0000)), Key::F32Bits(0x3f80_0000));
}

#[test]
fn capture_marks_structured_shapes() {
    assert_eq!(Key::capture(&Value::Sequence(vec![])), Key::SequenceMarker);
    assert_eq!(Key::capture(&Value::Mapping(vec![])), Key::MappingMarker);
    assert_eq!(Key::capture(&Value::Unit), Key::OtherMarker);
    assert_eq!(Key::capture(&Value::Present(Box::new(Value::Bool(true)))), Key::OtherMarker);
}

#[test]
fn replay_restores_primitives() {
    assert_eq!(key("hi").replay().unwrap(), text("hi"));
    assert_eq!(Key::I128(-9).replay().unwrap(), Value::I128(-9));
    assert_eq!(Key::Bytes(vec![1]).replay().unwrap(), Value::Bytes(vec![1]));
    assert_eq!(Key::F64Bits(17).replay().unwrap(), Value::F64Bits(17));
}

#[test]
fn replay_refuses_markers() {
    assert_eq!(Key::SequenceMarker.replay(), Err(Error::UnsupportedKeyShape));
    assert_eq!(Key::MappingMarker.replay(), Err(Error::UnsupportedKeyShape));
    assert_eq!(Key::OtherMarker.replay(), Err(Error::UnsupportedKeyShape));
}

#[test]
fn keys_compare_by_replayed_value() {
    assert!(key("a").same_as(&key("a")));
    assert!(!key("a").same_as(&key("b")));
    assert!(!key("1").same_as(&Key::U8(1)));
    assert!(Key::Bytes(vec![1, 2]).same_as(&Key::Bytes(vec![1, 2])));
    assert!(!Key::Bytes(vec![1, 2]).same_as(&Key::Bytes(vec![1, 3])));
    assert!(!Key::U8(1).same_as(&Key::U16(1)));
    assert!(Key::SequenceMarker.same_as(&Key::SequenceMarker));
    assert!(!Key::SequenceMarker.same_as(&Key::MappingMarker));
}

#[test]
fn insert_keeps_order_and_rejects_duplicates() {
    let mut fields = IgnoredFields::new();
    assert!(fields.is_empty());
    fields.insert(key("b"), Value::U8(2)).unwrap();
    fields.insert(key("a"), Value::U8(1)).unwrap();
    fields.insert(Key::Bool(false), Value::Unit).unwrap();
    assert_eq!(fields.len(), 3);
    assert_eq!(
        fields.insert(key("a"), Value::U8(9)),
        Err(Error::DuplicateIgnoredKey(key("a")))
    );
    assert_eq!(fields.len(), 3);
    assert_eq!(fields.entry_at(0), (text("b"), Value::U8(2)));
    assert_eq!(fields.entry_at(1), (text("a"), Value::U8(1)));
    assert_eq!(fields.entry_at(2), (Value::Bool(false), Value::Unit));
}

#[test]
fn insert_rejects_structured_keys() {
    let mut fields = IgnoredFields::new();
    assert_eq!(
        fields.insert(Key::MappingMarker, Value::Unit),
        Err(Error::UnsupportedKeyShape)
    );
    assert!(fields.is_empty());
}

#[test]
fn tracker_routes_ignored_entries() {
    let mut tracker = MapTracker::new();
    let mut fields = IgnoredFields::new();
    assert!(!tracker.needs_orphan_capture());

    // A recognized entry: key retrieved, value decoded by the schema.
    tracker.record_key(Key::capture(&text("name")));
    assert!(tracker.needs_orphan_capture());
    tracker.value_recognized();

    // An unrecognized entry: key retrieved, pair captured.
    tracker.record_key(Key::capture(&text("extra")));
    tracker.capture_ignored(Value::U8(5), &mut fields).unwrap();
    assert_eq!(fields.len(), 1);
    assert_eq!(fields.entry_at(0), (text("extra"), Value::U8(5)));

    tracker.record_end();
    assert!(!tracker.needs_orphan_capture());
}

#[test]
fn tracker_captures_orphaned_keys() {
    // The schema asked for a key and abandoned it without requesting the
    // value; before the next key is pulled the orphaned pair is captured.
    let mut tracker = MapTracker::new();
    let mut fields = IgnoredFields::new();
    tracker.record_key(Key::capture(&text("left")));
    assert!(tracker.needs_orphan_capture());
    tracker.capture_ignored(Value::Bool(true), &mut fields).unwrap();
    tracker.record_key(Key::capture(&text("next")));
    tracker.value_recognized();
    assert_eq!(fields.len(), 1);
    assert_eq!(fields.entry_at(0), (text("left"), Value::Bool(true)));
}

#[test]
fn tracker_reports_capture_errors() {
    let mut tracker = MapTracker::new();
    let mut fields = IgnoredFields::new();
    tracker.record_key(Key::capture(&Value::Sequence(vec![])));
    assert_eq!(
        tracker.capture_ignored(Value::Unit, &mut fields),
        Err(Error::UnsupportedKeyShape)
    );

    tracker.record_key(Key::capture(&text("k")));
    tracker.capture_ignored(Value::U8(1), &mut fields).unwrap();
    tracker.record_key(Key::capture(&text("k")));
    assert_eq!(
        tracker.capture_ignored(Value::U8(2), &mut fields),
        Err(Error::DuplicateIgnoredKey(key("k")))
    );
    assert_eq!(fields.len(), 1);
}

#[test]
fn size_hint_passthrough() {
    let mut tracker = MapTracker::new();
    assert_eq!(tracker.size_hint(Some(4)), Some(4));
    assert_eq!(tracker.size_hint(None), None);
    tracker.record_end();
    assert_eq!(tracker.size_hint(Some(4)), Some(0));
    assert_eq!(tracker.size_hint(None), Some(0));
}

#[test]
fn error_messages_name_the_fault() {
    assert!(Error::UnsupportedKeyShape.message().contains("primitive"));
    assert!(Error::DuplicateIgnoredKey(key("a")).message().contains("duplicate"));
    assert!(Error::UnsupportedEncodeShape.message().contains("re-encode"));
}
