use kv::encoding::DecodeFailure;
use kv::messages::{Inner, SetAdd, SetInsert, UnrecognizedMessageError, WireMessage};

fn insert_of(message: &WireMessage) -> (&str, &[u8]) {
    match &message.inner {
        Some(Inner::SetInsert(m)) => (m.name.as_str(), m.value.as_slice()),
        other => panic!("not an insert: {:?}", other),
    }
}

#[test]
fn set_insert_frame_has_the_expected_bytes() {
    let message = WireMessage {
        id: 7,
        inner: Some(Inner::SetInsert(SetInsert { name: "a".to_string(), value: vec![1] })),
    };
    assert_eq!(
        message.encode(),
        vec![0x08, 0x07, 0x12, 0x06, 0x0a, 0x01, 0x61, 0x12, 0x01, 0x01]
    );
}

#[test]
fn set_insert_round_trip() {
    let message = WireMessage {
        id: 300,
        inner: Some(Inner::SetInsert(SetInsert {
            name: "fruits".to_string(),
            value: b"apple".to_vec(),
        })),
    };
    let decoded = WireMessage::decode(&message.encode()).unwrap();
    assert_eq!(decoded.id, 300);
    assert_eq!(insert_of(&decoded), ("fruits", &b"apple"[..]));
}

#[test]
fn set_insert_round_trip_with_empty_value() {
    let message = WireMessage {
        id: 1,
        inner: Some(Inner::SetInsert(SetInsert { name: "n".to_string(), value: vec![] })),
    };
    let frame = message.encode();
    assert_eq!(frame, vec![0x08, 0x01, 0x12, 0x03, 0x0a, 0x01, 0x6e]);
    let decoded = WireMessage::decode(&frame).unwrap();
    assert_eq!(decoded.id, 1);
    assert_eq!(insert_of(&decoded), ("n", &b""[..]));
}

#[test]
fn set_insert_round_trip_with_everything_empty() {
    let message = WireMessage {
        id: 0,
        inner: Some(Inner::SetInsert(SetInsert { name: String::new(), value: vec![] })),
    };
    let frame = message.encode();
    assert_eq!(frame, vec![0x12, 0x00]);
    let decoded = WireMessage::decode(&frame).unwrap();
    assert_eq!(decoded.id, 0);
    assert_eq!(insert_of(&decoded), ("", &b""[..]));
}

#[test]
fn set_add_round_trip() {
    let message = WireMessage {
        id: u32::MAX,
        inner: Some(Inner::SetAdd(SetAdd { name: "größe".to_string(), data: vec![0, 255, 128] })),
    };
    let decoded = WireMessage::decode(&message.encode()).unwrap();
    assert_eq!(decoded.id, u32::MAX);
    match decoded.inner {
        Some(Inner::SetAdd(m)) => {
            assert_eq!(m.name, "größe");
            assert_eq!(m.data, vec![0, 255, 128]);
        }
        other => panic!("not a SetAdd: {:?}", other),
    }
}

#[test]
fn unrecognized_message_error_round_trip() {
    let message = WireMessage {
        id: 9,
        inner: Some(Inner::UnrecognizedMessageError(UnrecognizedMessageError {})),
    };
    let frame = message.encode();
    assert_eq!(frame, vec![0x08, 0x09, 0x22, 0x00]);
    let decoded = WireMessage::decode(&frame).unwrap();
    assert_eq!(decoded.id, 9);
    assert!(matches!(decoded.inner, Some(Inner::UnrecognizedMessageError(_))));
}

#[test]
fn message_without_body_round_trip() {
    let message = WireMessage { id: 5, inner: None };
    let frame = message.encode();
    assert_eq!(frame, vec![0x08, 0x05]);
    let decoded = WireMessage::decode(&frame).unwrap();
    assert_eq!(decoded.id, 5);
    assert!(decoded.inner.is_none());
}

#[test]
fn empty_frame_is_a_message_without_body() {
    let decoded = WireMessage::decode(&[]).unwrap();
    assert_eq!(decoded.id, 0);
    assert!(decoded.inner.is_none());
}

#[test]
fn long_payload_gets_a_two_byte_length() {
    let value = vec![0xabu8; 200];
    let message = WireMessage {
        id: 0,
        inner: Some(Inner::SetInsert(SetInsert { name: String::new(), value: value.clone() })),
    };
    let frame = message.encode();
    // body: key 0x12, length 200 = c8 01, then the payload
    assert_eq!(&frame[..6], &[0x12, 0xcb, 0x01, 0x12, 0xc8, 0x01]);
    assert_eq!(frame.len(), 6 + 200);
    let decoded = WireMessage::decode(&frame).unwrap();
    assert_eq!(insert_of(&decoded), ("", value.as_slice()));
}

#[test]
fn all_zero_frame_is_rejected() {
    assert_eq!(WireMessage::decode(&[0, 0, 0, 0]).unwrap_err(), DecodeFailure::InvalidTag);
}

#[test]
fn truncated_frame_is_rejected() {
    let message = WireMessage {
        id: 7,
        inner: Some(Inner::SetInsert(SetInsert { name: "a".to_string(), value: vec![1] })),
    };
    let frame = message.encode();
    assert_eq!(
        WireMessage::decode(&frame[..frame.len() - 1]).unwrap_err(),
        DecodeFailure::BufferUnderflow
    );
    assert_eq!(WireMessage::decode(&frame[..1]).unwrap_err(), DecodeFailure::InvalidVarint);
}

#[test]
fn unterminated_varint_is_rejected() {
    assert_eq!(WireMessage::decode(&[0x80]).unwrap_err(), DecodeFailure::InvalidVarint);
    assert_eq!(WireMessage::decode(&[0xff; 11]).unwrap_err(), DecodeFailure::InvalidVarint);
}

#[test]
fn key_above_thirty_two_bits_is_rejected() {
    // 2^32 as a varint
    assert_eq!(
        WireMessage::decode(&[0x80, 0x80, 0x80, 0x80, 0x10]).unwrap_err(),
        DecodeFailure::InvalidKey
    );
}

#[test]
fn wire_type_above_five_is_rejected() {
    assert_eq!(WireMessage::decode(&[0x0e]).unwrap_err(), DecodeFailure::InvalidWireType);
}

#[test]
fn wrong_wire_type_for_a_known_field_is_rejected() {
    // field 1 as length-delimited, field 2 as varint
    assert_eq!(WireMessage::decode(&[0x0a, 0x00]).unwrap_err(), DecodeFailure::UnexpectedWireType);
    assert_eq!(WireMessage::decode(&[0x10, 0x00]).unwrap_err(), DecodeFailure::UnexpectedWireType);
}

#[test]
fn name_that_is_not_utf8_is_rejected() {
    assert_eq!(
        WireMessage::decode(&[0x12, 0x03, 0x0a, 0x01, 0xff]).unwrap_err(),
        DecodeFailure::InvalidString
    );
}

#[test]
fn unknown_fields_are_passed_over() {
    // field 15 varint 1, field 1 varint 3, field 16 (two-byte key) fixed32
    let frame = [0x78, 0x01, 0x08, 0x03, 0x85, 0x01, 1, 2, 3, 4];
    let decoded = WireMessage::decode(&frame).unwrap();
    assert_eq!(decoded.id, 3);
    assert!(decoded.inner.is_none());
}

#[test]
fn unknown_field_that_cannot_be_skipped_is_rejected() {
    // field 15 as fixed64 with too few bytes; a lone end-group key
    assert_eq!(
        WireMessage::decode(&[0x79, 1, 2, 3]).unwrap_err(),
        DecodeFailure::InvalidUnknownField
    );
    assert_eq!(WireMessage::decode(&[0x7c]).unwrap_err(), DecodeFailure::InvalidUnknownField);
}

#[test]
fn last_identifier_wins() {
    let decoded = WireMessage::decode(&[0x08, 0x01, 0x08, 0x02]).unwrap();
    assert_eq!(decoded.id, 2);
}

#[test]
fn identifier_keeps_its_low_thirty_two_bits() {
    // 2^32 + 5
    let decoded = WireMessage::decode(&[0x08, 0x85, 0x80, 0x80, 0x80, 0x10]).unwrap();
    assert_eq!(decoded.id, 5);
}

#[test]
fn a_second_body_of_the_same_kind_is_laid_over_the_first() {
    // SetInsert { name: "a" } then SetInsert { value: [9] }
    let frame = [0x12, 0x03, 0x0a, 0x01, 0x61, 0x12, 0x03, 0x12, 0x01, 0x09];
    let decoded = WireMessage::decode(&frame).unwrap();
    assert_eq!(insert_of(&decoded), ("a", &[9u8][..]));
}

#[test]
fn a_body_of_another_kind_replaces_the_first() {
    // SetAdd { name: "a" } then SetInsert { value: [9] }
    let frame = [0x1a, 0x03, 0x0a, 0x01, 0x61, 0x12, 0x03, 0x12, 0x01, 0x09];
    let decoded = WireMessage::decode(&frame).unwrap();
    assert_eq!(insert_of(&decoded), ("", &[9u8][..]));
}

#[test]
fn merge_lays_the_frame_over_the_message() {
    let start = WireMessage {
        id: 4,
        inner: Some(Inner::SetInsert(SetInsert { name: "a".to_string(), value: vec![1] })),
    };
    // SetInsert { value: [9] }, no identifier
    let merged = start.merge(&[0x12, 0x03, 0x12, 0x01, 0x09]).unwrap();
    assert_eq!(merged.id, 4);
    assert_eq!(insert_of(&merged), ("a", &[9u8][..]));

    let start = WireMessage { id: 4, inner: None };
    let merged = start.merge(&[]).unwrap();
    assert_eq!(merged.id, 4);
    assert!(merged.inner.is_none());

    let start = WireMessage { id: 4, inner: None };
    assert_eq!(start.merge(&[0x08]).unwrap_err(), DecodeFailure::InvalidVarint);
}

#[test]
fn unknown_group_is_passed_over() {
    // field 5 start group, field 1 varint 1 inside, field 5 end group; then id 2
    let decoded = WireMessage::decode(&[0x2b, 0x08, 0x01, 0x2c, 0x08, 0x02]).unwrap();
    assert_eq!(decoded.id, 2);
    // a group closed by another field's end
    assert_eq!(
        WireMessage::decode(&[0x2b, 0x34]).unwrap_err(),
        DecodeFailure::InvalidUnknownField
    );
}

#[test]
fn unknown_field_inside_a_body_is_passed_over() {
    // SetInsert { field 3 varint 7, name "a" }
    let frame = [0x12, 0x05, 0x18, 0x07, 0x0a, 0x01, 0x61];
    let decoded = WireMessage::decode(&frame).unwrap();
    assert_eq!(insert_of(&decoded), ("a", &b""[..]));
    // UnrecognizedMessageError { field 1 varint 7 }
    let decoded = WireMessage::decode(&[0x22, 0x02, 0x08, 0x07]).unwrap();
    assert!(matches!(decoded.inner, Some(Inner::UnrecognizedMessageError(_))));
}

fn frame_with_name(name: &[u8]) -> Vec<u8> {
    let mut body = vec![0x0a, name.len() as u8];
    body.extend_from_slice(name);
    let mut frame = vec![0x12, body.len() as u8];
    frame.extend(body);
    frame
}

#[test]
fn names_must_be_well_formed_utf8() {
    // an overlong encoding, a surrogate, a value past the last scalar, a
    // sequence cut short, a lone continuation byte
    for name in [
        &[0xc0, 0x80][..],
        &[0xed, 0xa0, 0x80][..],
        &[0xf4, 0x90, 0x80, 0x80][..],
        &[0xe2, 0x82][..],
        &[0x80][..],
    ] {
        assert_eq!(
            WireMessage::decode(&frame_with_name(name)).unwrap_err(),
            DecodeFailure::InvalidString,
            "{:?}",
            name
        );
    }
    for name in ["é", "€", "𝄞", "\u{10ffff}", "\u{d7ff}\u{e000}"] {
        let decoded = WireMessage::decode(&frame_with_name(name.as_bytes())).unwrap();
        assert_eq!(insert_of(&decoded), (name, &b""[..]));
    }
}
