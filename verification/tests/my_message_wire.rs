use protogen::doctest::{file_descriptor, file_descriptor_proto, MyMessage};
use protogen::wire::WireError;

fn encode(m: &MyMessage) -> Vec<u8> {
    let mut out = Vec::new();
    m.write_to_with_cached_sizes(&mut out);
    out
}

#[test]
fn scenario_zero_field_message() {
    let mut m = MyMessage::new();
    assert_eq!(m.compute_size(), 0);
    assert!(encode(&m).is_empty());
    // decoding zero input succeeds and leaves the instance unchanged
    m.merge_from(&[]).unwrap();
    assert_eq!(m, MyMessage::new());
}

#[test]
fn every_field_is_unknown_and_preserved() {
    let data = vec![0x08, 0x2A, 0x12, 0x01, b'z'];
    let mut m = MyMessage::new();
    m.merge_from(&data).unwrap();
    assert_eq!(m.unknown_fields.len(), 2);
    assert_eq!(encode(&m), data);
    assert_eq!(m.compute_size() as usize, data.len());
}

#[test]
fn group_bytes_preserved_through_store() {
    // field 3 open-group tag, an inner varint field, field 3 close-group tag
    let data = vec![0x1B, 0x08, 0x01, 0x1C];
    let mut m = MyMessage::new();
    m.merge_from(&data).unwrap();
    assert_eq!(m.unknown_fields.len(), 1);
    assert_eq!(encode(&m), data);
}

#[test]
fn nested_group_skipped_whole() {
    // field 3 group holding a nested field 4 group
    let data = vec![0x1B, 0x23, 0x08, 0x05, 0x24, 0x1C];
    let mut m = MyMessage::new();
    m.merge_from(&data).unwrap();
    assert_eq!(m.unknown_fields.len(), 1);
    assert_eq!(encode(&m), data);
}

#[test]
fn unterminated_group_is_truncation() {
    let data = vec![0x1B, 0x08, 0x01];
    let mut m = MyMessage::new();
    assert_eq!(m.merge_from(&data), Err(WireError::TruncatedInput));
}

#[test]
fn stray_close_group_tag_is_invalid() {
    let data = vec![0x1C];
    let mut m = MyMessage::new();
    assert_eq!(m.merge_from(&data), Err(WireError::InvalidTag));
}

#[test]
fn clear_empties_the_store() {
    let mut m = MyMessage::new();
    m.merge_from(&[0x08, 0x2A]).unwrap();
    assert_eq!(m.unknown_fields.len(), 1);
    m.clear();
    assert_eq!(encode(&m), encode(&MyMessage::new()));
    assert!(m.is_initialized());
    assert_eq!(m.get_unknown_fields().len(), 0);
    m.mut_unknown_fields().clear();
    assert_eq!(m.get_cached_size(), 0);
}

#[test]
fn zero_field_descriptors() {
    let d = MyMessage::descriptor_static();
    assert_eq!(d.name, "MyMessage");
    assert!(d.fields.is_empty());
    assert!(d.field_by_name("anything").is_none());

    let proto = file_descriptor_proto();
    assert_eq!(proto.name, "doctest_pb.proto");
    assert_eq!(proto.message_type[0].name, "MyMessage");
    assert!(proto.message_type[0].field.is_empty());

    let fd = file_descriptor();
    assert_eq!(fd.messages[0].name, "MyMessage");
    let e = MyMessage::default_instance();
    assert_eq!(e, MyMessage::default());
}
