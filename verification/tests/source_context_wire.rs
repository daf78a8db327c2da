use protogen::source_context::{file_descriptor, file_descriptor_proto, SourceContext};
use protogen::unknown::{UnknownValue, UnknownFields};
use protogen::wire::WireError;

fn encode(m: &SourceContext) -> Vec<u8> {
    let mut out = Vec::new();
    m.write_to_with_cached_sizes(&mut out);
    out
}

#[test]
fn scenario_one_string_field() {
    let mut m = SourceContext::new();
    m.file_name = String::from("a.proto");
    assert_eq!(m.compute_size(), 9);
    assert_eq!(m.get_cached_size(), 9);
    let bytes = encode(&m);
    let mut expected = vec![0x0A, 0x07];
    expected.extend_from_slice(b"a.proto");
    assert_eq!(bytes, expected);
}

#[test]
fn round_trip_fresh_instance() {
    let mut m = SourceContext::new();
    m.file_name = String::from("google/protobuf/source_context.proto");
    let bytes = encode(&m);
    let mut back = SourceContext::new();
    back.merge_from(&bytes).unwrap();
    assert_eq!(back.file_name, m.file_name);
    assert_eq!(back.unknown_fields.len(), 0);
}

#[test]
fn unknown_field_preserved_byte_for_byte() {
    // field 1: string "x"; field 2 (not in the schema): varint 5
    let data = vec![0x0A, 0x01, b'x', 0x10, 0x05];
    let mut m = SourceContext::new();
    m.merge_from(&data).unwrap();
    assert_eq!(m.file_name, "x");
    assert_eq!(m.unknown_fields.len(), 1);
    assert_eq!(encode(&m), data);
}

#[test]
fn merge_accumulates_and_overwrites() {
    let mut m = SourceContext::new();
    m.merge_from(&[0x0A, 0x01, b'a']).unwrap();
    assert_eq!(m.file_name, "a");
    // a second merge overwrites the singular string field
    m.merge_from(&[0x0A, 0x01, b'b']).unwrap();
    assert_eq!(m.file_name, "b");
    // unknown fields accumulate across merges
    m.merge_from(&[0x10, 0x05]).unwrap();
    m.merge_from(&[0x10, 0x06]).unwrap();
    assert_eq!(m.unknown_fields.len(), 2);
}

#[test]
fn decode_truncated_length_prefix() {
    // valid tag for field 1, declared length 5, only one byte follows
    let data = vec![0x0A, 0x05, b'a'];
    let mut m = SourceContext::new();
    assert_eq!(m.merge_from(&data), Err(WireError::TruncatedInput));
}

#[test]
fn decode_wire_type_mismatch() {
    // field 1 under the varint wire category instead of length-delimited
    let data = vec![0x08, 0x01];
    let mut m = SourceContext::new();
    assert_eq!(m.merge_from(&data), Err(WireError::WireTypeMismatch));
}

#[test]
fn decode_invalid_utf8_payload() {
    let data = vec![0x0A, 0x02, 0xFF, 0xFF];
    let mut m = SourceContext::new();
    assert_eq!(m.merge_from(&data), Err(WireError::InvalidUtf8));
}

#[test]
fn decode_malformed_varint() {
    let data = [0x80u8; 11];
    let mut m = SourceContext::new();
    assert_eq!(m.merge_from(&data), Err(WireError::MalformedVarint));
}

#[test]
fn default_field_contributes_no_bytes() {
    let mut m = SourceContext::new();
    assert_eq!(m.compute_size(), 0);
    assert!(encode(&m).is_empty());
    // set to a non-default value and back: the contribution vanishes again
    m.file_name = String::from("something");
    assert!(m.compute_size() > 0);
    m.file_name = String::new();
    assert_eq!(m.compute_size(), 0);
    assert!(encode(&m).is_empty());
}

#[test]
fn clear_equals_fresh_instance() {
    let mut m = SourceContext::new();
    m.file_name = String::from("a.proto");
    m.mut_unknown_fields()
        .add_value(7, UnknownValue::Varint(3));
    m.clear();
    assert_eq!(encode(&m), encode(&SourceContext::new()));
    assert_eq!(m.file_name, "");
    assert_eq!(m.get_unknown_fields().len(), 0);
}

#[test]
fn size_matches_written_bytes() {
    for name in ["", "a", "a.proto", "päth/ünicode.proto"] {
        let mut m = SourceContext::new();
        m.file_name = String::from(name);
        let size = m.compute_size();
        let bytes = encode(&m);
        assert_eq!(bytes.len(), size as usize);
    }
}

#[test]
fn unknown_store_survives_all_wire_categories() {
    let mut data = Vec::new();
    data.extend_from_slice(&[0x10, 0x2A]); // field 2, varint 42
    data.extend_from_slice(&[0x1D, 1, 2, 3, 4]); // field 3, fixed32
    data.extend_from_slice(&[0x21, 1, 2, 3, 4, 5, 6, 7, 8]); // field 4, fixed64
    data.extend_from_slice(&[0x2A, 0x02, 9, 9]); // field 5, length-delimited
    let mut m = SourceContext::new();
    m.merge_from(&data).unwrap();
    assert_eq!(m.unknown_fields.len(), 4);
    assert_eq!(encode(&m), data);
}

#[test]
fn reflection_accessors_by_name() {
    let mut m = SourceContext::new();
    assert!(m.reflect_set_str("file_name", String::from("f.proto")));
    assert!(!m.reflect_set_str("no_such_field", String::from("x")));
    assert_eq!(m.reflect_get_str("file_name").unwrap(), "f.proto");
    assert!(m.reflect_get_str("other").is_none());
    assert!(m.is_initialized());
}

#[test]
fn descriptors_carry_schema_facts() {
    let d = SourceContext::descriptor_static();
    assert_eq!(d.name, "SourceContext");
    assert_eq!(d.fields.len(), 1);
    let f = d.field_by_name("file_name").unwrap();
    assert_eq!(f.number, 1);
    assert!(d.field_by_name("absent").is_none());

    let proto = file_descriptor_proto();
    assert_eq!(proto.name, "google/protobuf/source_context.proto");
    assert_eq!(proto.package, "google.protobuf");
    assert_eq!(proto.message_type.len(), 1);
    assert_eq!(proto.message_type[0].field[0].name, "file_name");

    let fd = file_descriptor();
    assert_eq!(fd.messages.len(), 1);
    assert_eq!(fd.messages[0].name, "SourceContext");
}

#[test]
fn default_matches_new() {
    let a = SourceContext::default();
    let b = SourceContext::new();
    assert_eq!(a, b);
    let c = SourceContext::default_instance();
    assert_eq!(c.file_name, "");
    let mut fields = UnknownFields::new();
    fields.clear();
    assert_eq!(fields.len(), 0);
}
