use protogen::wire::{
    compute_raw_varint64_size, read_fixed32, read_fixed64, read_length_delimited,
    read_raw_varint64, read_string, read_tag_unpack, tag_size, write_fixed32, write_fixed64,
    write_raw_varint64, write_string, write_tag, WireError, WireType,
};

#[test]
fn varint_single_byte() {
    let mut out = Vec::new();
    write_raw_varint64(&mut out, 0);
    assert_eq!(out, vec![0x00]);
    let mut out = Vec::new();
    write_raw_varint64(&mut out, 127);
    assert_eq!(out, vec![0x7F]);
}

#[test]
fn varint_multi_byte() {
    let mut out = Vec::new();
    write_raw_varint64(&mut out, 300);
    assert_eq!(out, vec![0xAC, 0x02]);
    let mut out = Vec::new();
    write_raw_varint64(&mut out, u64::MAX);
    assert_eq!(
        out,
        vec![0xFF, 0xFF, 0xFF, 0xFF, 0xFF, 0xFF, 0xFF, 0xFF, 0xFF, 0x01]
    );
}

#[test]
fn varint_round_trips() {
    for v in [0u64, 1, 127, 128, 300, 16383, 16384, 1 << 32, u64::MAX] {
        let mut out = Vec::new();
        write_raw_varint64(&mut out, v);
        let (got, end) = read_raw_varint64(&out, 0).unwrap();
        assert_eq!(got, v);
        assert_eq!(end, out.len());
        assert_eq!(compute_raw_varint64_size(v) as usize, out.len());
    }
}

#[test]
fn varint_truncated() {
    assert_eq!(read_raw_varint64(&[], 0), Err(WireError::TruncatedInput));
    assert_eq!(
        read_raw_varint64(&[0x80], 0),
        Err(WireError::TruncatedInput)
    );
}

#[test]
fn varint_malformed_too_long() {
    let data = [0x80u8; 10];
    assert_eq!(read_raw_varint64(&data, 0), Err(WireError::MalformedVarint));
}

#[test]
fn varint_malformed_overflow() {
    let mut data = vec![0xFFu8; 9];
    data.push(0x7F);
    assert_eq!(read_raw_varint64(&data, 0), Err(WireError::MalformedVarint));
}

#[test]
fn tag_packs_number_and_category() {
    let mut out = Vec::new();
    write_tag(&mut out, 1, WireType::LengthDelimited);
    assert_eq!(out, vec![0x0A]);
    let (num, wt, end) = read_tag_unpack(&out, 0).unwrap();
    assert_eq!(num, 1);
    assert_eq!(wt, WireType::LengthDelimited);
    assert_eq!(end, 1);
    assert_eq!(tag_size(1, WireType::LengthDelimited), 1);
    assert_eq!(tag_size(16, WireType::Varint), 2);
}

#[test]
fn tag_rejects_field_number_zero() {
    assert_eq!(read_tag_unpack(&[0x00], 0), Err(WireError::InvalidTag));
}

#[test]
fn tag_rejects_unknown_wire_category() {
    // field 1 with wire-type code 6
    assert_eq!(read_tag_unpack(&[0x0E], 0), Err(WireError::InvalidTag));
    // field 1 with wire-type code 7
    assert_eq!(read_tag_unpack(&[0x0F], 0), Err(WireError::InvalidTag));
}

#[test]
fn fixed_width_round_trips() {
    let mut out = Vec::new();
    write_fixed32(&mut out, 0xDEAD_BEEF);
    assert_eq!(out, vec![0xEF, 0xBE, 0xAD, 0xDE]);
    assert_eq!(read_fixed32(&out, 0).unwrap(), (0xDEAD_BEEF, 4));

    let mut out = Vec::new();
    write_fixed64(&mut out, 0x0123_4567_89AB_CDEF);
    assert_eq!(out, vec![0xEF, 0xCD, 0xAB, 0x89, 0x67, 0x45, 0x23, 0x01]);
    assert_eq!(read_fixed64(&out, 0).unwrap(), (0x0123_4567_89AB_CDEF, 8));
}

#[test]
fn fixed_width_truncated() {
    assert_eq!(
        read_fixed32(&[1, 2, 3], 0),
        Err(WireError::TruncatedInput)
    );
    assert_eq!(
        read_fixed64(&[1, 2, 3, 4, 5, 6, 7], 0),
        Err(WireError::TruncatedInput)
    );
}

#[test]
fn length_delimited_frames_payload() {
    let (payload, end) = read_length_delimited(&[0x03, 9, 8, 7, 42], 0).unwrap();
    assert_eq!(payload, vec![9, 8, 7]);
    assert_eq!(end, 4);
}

#[test]
fn length_delimited_rejects_long_prefix() {
    // declared length 5, only 2 bytes remain
    assert_eq!(
        read_length_delimited(&[0x05, 1, 2], 0),
        Err(WireError::TruncatedInput)
    );
}

#[test]
fn string_field_bytes_and_reading() {
    let mut out = Vec::new();
    write_string(&mut out, 1, "hi");
    assert_eq!(out, vec![0x0A, 0x02, b'h', b'i']);
    let (s, end) = read_string(&out, 1).unwrap();
    assert_eq!(s, "hi");
    assert_eq!(end, out.len());
}

#[test]
fn string_rejects_invalid_utf8() {
    // length 2, bytes 0xFF 0xFF: not UTF-8
    assert_eq!(
        read_string(&[0x02, 0xFF, 0xFF], 0),
        Err(WireError::InvalidUtf8)
    );
}
