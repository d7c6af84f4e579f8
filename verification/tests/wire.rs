use spark::button::ButtonNumber;
use spark::sequence::ButtonSequence;
use spark::varint::{decode_varint, encode_varint, DecodeError};
use spark::wire::{
    decode_message, encode_message, ButtonEventType, Message, MessageType, PROTOCOL_VERSION,
};

fn varint(value: u64) -> Vec<u8> {
    let mut out = Vec::new();
    encode_varint(value, &mut out);
    out
}

fn event(button_number: ButtonNumber, event_type: ButtonEventType) -> Message {
    Message {
        protocol_version: PROTOCOL_VERSION,
        message_type: MessageType::ButtonEvent { button_number, event_type },
    }
}

fn gesture(buttons: &[ButtonNumber]) -> Message {
    Message {
        protocol_version: PROTOCOL_VERSION,
        message_type: MessageType::ButtonSequenceEvent {
            sequence: ButtonSequence::from_slice(buttons),
        },
    }
}

#[test]
fn varint_bytes() {
    assert_eq!(varint(0), vec![0x00]);
    assert_eq!(varint(1), vec![0x01]);
    assert_eq!(varint(127), vec![0x7f]);
    assert_eq!(varint(128), vec![0x80, 0x01]);
    assert_eq!(varint(300), vec![0xac, 0x02]);
    assert_eq!(varint(16383), vec![0xff, 0x7f]);
    assert_eq!(varint(16384), vec![0x80, 0x80, 0x01]);
    assert_eq!(
        varint(u64::MAX),
        vec![0xff, 0xff, 0xff, 0xff, 0xff, 0xff, 0xff, 0xff, 0xff, 0x01]
    );
}

#[test]
fn varint_appends_behind_what_is_there() {
    let mut out = vec![9, 9];
    encode_varint(300, &mut out);
    assert_eq!(out, vec![9, 9, 0xac, 0x02]);
}

#[test]
fn varint_goes_both_ways() {
    let values = [
        0,
        1,
        127,
        128,
        255,
        256,
        16383,
        16384,
        u32::MAX as u64,
        u32::MAX as u64 + 1,
        1 << 56,
        (1 << 63) - 1,
        1 << 63,
        u64::MAX - 1,
        u64::MAX,
    ];
    for value in values {
        let mut bytes = vec![0xee];
        encode_varint(value, &mut bytes);
        let end = bytes.len();
        bytes.extend_from_slice(&[0x80, 0x80]);
        assert_eq!(decode_varint(&bytes, 1), Ok((value, end)), "value {}", value);
    }
}

#[test]
fn varint_that_ends_early_is_truncated() {
    assert_eq!(decode_varint(&[], 0), Err(DecodeError::Truncated));
    assert_eq!(decode_varint(&[0x80], 0), Err(DecodeError::Truncated));
    assert_eq!(decode_varint(&[0xff, 0xff, 0xff], 0), Err(DecodeError::Truncated));
    assert_eq!(decode_varint(&[0x05], 1), Err(DecodeError::Truncated));
    // Behind the end there is nothing to read.
    assert_eq!(decode_varint(&[0x05], 2), Err(DecodeError::Truncated));
    assert_eq!(decode_varint(&[], usize::MAX), Err(DecodeError::Truncated));
    assert_eq!(decode_varint(&[0xff; 9], 0), Err(DecodeError::Truncated));
}

#[test]
fn varint_in_a_longer_form_is_malformed() {
    assert_eq!(decode_varint(&[0x80, 0x00], 0), Err(DecodeError::BadVarint));
    assert_eq!(decode_varint(&[0x81, 0x00], 0), Err(DecodeError::BadVarint));
    assert_eq!(decode_varint(&[0xff, 0x80, 0x00, 0x01], 0), Err(DecodeError::BadVarint));
}

#[test]
fn varint_that_is_too_long_or_too_large_is_malformed() {
    // Ten bytes whose last is more than 1 do not fit 64 bits.
    let mut bytes = vec![0xff; 9];
    bytes.push(0x02);
    assert_eq!(decode_varint(&bytes, 0), Err(DecodeError::BadVarint));
    bytes[9] = 0x7f;
    assert_eq!(decode_varint(&bytes, 0), Err(DecodeError::BadVarint));
    // A tenth byte that goes on, whether or not an eleventh follows.
    assert_eq!(decode_varint(&[0xff; 10], 0), Err(DecodeError::BadVarint));
    assert_eq!(decode_varint(&[0x80; 11], 0), Err(DecodeError::BadVarint));
    let mut eleven = vec![0x80; 10];
    eleven.push(0x01);
    assert_eq!(decode_varint(&eleven, 0), Err(DecodeError::BadVarint));
}

#[test]
fn button_event_bytes() {
    let short = event(ButtonNumber::Button3, ButtonEventType::ShortPress { count: 2 });
    assert_eq!(encode_message(&short), vec![0, 0, 2, 0, 2]);
    let long = event(ButtonNumber::Button1, ButtonEventType::LongPress);
    assert_eq!(encode_message(&long), vec![0, 0, 0, 1]);
    let many = event(ButtonNumber::Button4, ButtonEventType::ShortPress { count: 300 });
    assert_eq!(encode_message(&many), vec![0, 0, 3, 0, 0xac, 0x02]);
    let other_version = Message { protocol_version: 7, ..long.clone() };
    assert_eq!(encode_message(&other_version), vec![7, 0, 0, 1]);
}

#[test]
fn button_sequence_bytes() {
    let three = gesture(&[ButtonNumber::Button2, ButtonNumber::Button2, ButtonNumber::Button2]);
    assert_eq!(encode_message(&three), vec![0, 1, 3, 1, 1, 1]);
    let none = gesture(&[]);
    assert_eq!(encode_message(&none), vec![0, 1, 0]);
    let five = gesture(&[
        ButtonNumber::Button1,
        ButtonNumber::Button2,
        ButtonNumber::Button3,
        ButtonNumber::Button4,
        ButtonNumber::Button1,
    ]);
    assert_eq!(encode_message(&five), vec![0, 1, 5, 0, 1, 2, 3, 0]);
}

#[test]
fn messages_go_both_ways() {
    let mut messages = vec![
        event(ButtonNumber::Button1, ButtonEventType::LongPress),
        event(ButtonNumber::Button2, ButtonEventType::ShortPress { count: 0 }),
        event(ButtonNumber::Button3, ButtonEventType::ShortPress { count: 1 }),
        event(ButtonNumber::Button4, ButtonEventType::ShortPress { count: 127 }),
        event(ButtonNumber::Button4, ButtonEventType::ShortPress { count: 128 }),
        event(ButtonNumber::Button4, ButtonEventType::ShortPress { count: usize::MAX }),
        gesture(&[]),
        gesture(&[ButtonNumber::Button4]),
        gesture(&[ButtonNumber::Button2, ButtonNumber::Button1, ButtonNumber::Button2]),
        gesture(&[ButtonNumber::Button3; 5]),
    ];
    let with_versions: Vec<Message> = messages
        .iter()
        .flat_map(|m| {
            [1u8, 0x7f, 0x80, 0xff]
                .iter()
                .map(|v| Message { protocol_version: *v, message_type: m.message_type.clone() })
                .collect::<Vec<Message>>()
        })
        .collect();
    messages.extend(with_versions);
    for message in messages {
        let bytes = encode_message(&message);
        assert_eq!(decode_message(&bytes), Ok(message.clone()));
        // Bytes behind the message are left alone.
        let mut padded = bytes.clone();
        padded.extend_from_slice(&[0, 0, 0xff, 0x80]);
        assert_eq!(decode_message(&padded), Ok(message));
    }
}

#[test]
fn message_that_ends_early_is_truncated() {
    assert_eq!(decode_message(&[]), Err(DecodeError::Truncated));
    assert_eq!(decode_message(&[0]), Err(DecodeError::Truncated));
    assert_eq!(decode_message(&[0, 0]), Err(DecodeError::Truncated));
    assert_eq!(decode_message(&[0, 0, 2]), Err(DecodeError::Truncated));
    assert_eq!(decode_message(&[0, 0, 2, 0]), Err(DecodeError::Truncated));
    assert_eq!(decode_message(&[0, 1]), Err(DecodeError::Truncated));
    assert_eq!(decode_message(&[0, 1, 3, 1, 1]), Err(DecodeError::Truncated));
    let full = encode_message(&event(
        ButtonNumber::Button4,
        ButtonEventType::ShortPress { count: usize::MAX },
    ));
    for len in 0..full.len() {
        assert_eq!(decode_message(&full[..len]), Err(DecodeError::Truncated));
    }
}

#[test]
fn unknown_tags_are_told_apart_from_malformed_bytes() {
    // A kind of message that this version does not know.
    assert_eq!(decode_message(&[0, 2]), Err(DecodeError::UnknownTag));
    assert_eq!(decode_message(&[0, 0x7f, 1, 2, 3]), Err(DecodeError::UnknownTag));
    assert_eq!(decode_message(&[0, 0x80, 0x01]), Err(DecodeError::UnknownTag));
    // A button that does not exist.
    assert_eq!(decode_message(&[0, 0, 4, 1]), Err(DecodeError::UnknownTag));
    assert_eq!(decode_message(&[0, 1, 1, 4]), Err(DecodeError::UnknownTag));
    // A way of pressing that this version does not know.
    assert_eq!(decode_message(&[0, 0, 0, 2]), Err(DecodeError::UnknownTag));
    // Malformed integers.
    assert_eq!(decode_message(&[0, 0x80, 0x00]), Err(DecodeError::BadVarint));
    assert_eq!(decode_message(&[0, 0, 0x80, 0x00, 1]), Err(DecodeError::BadVarint));
    assert_eq!(decode_message(&[0, 0, 0, 0, 0x80, 0x00]), Err(DecodeError::BadVarint));
}

#[test]
fn a_sequence_longer_than_five_is_refused() {
    assert_eq!(decode_message(&[0, 1, 6, 0, 0, 0, 0, 0, 0]), Err(DecodeError::TooLong));
    assert_eq!(decode_message(&[0, 1, 0xff, 0x01]), Err(DecodeError::TooLong));
    assert!(decode_message(&[0, 1, 5, 0, 0, 0, 0, 0]).is_ok());
}

#[test]
fn the_first_error_met_is_the_one_reported() {
    // The unknown button comes before the missing event type.
    assert_eq!(decode_message(&[0, 0, 9]), Err(DecodeError::UnknownTag));
    // The second button is unknown; the third is missing.
    assert_eq!(decode_message(&[0, 1, 3, 1, 7]), Err(DecodeError::UnknownTag));
}

#[test]
fn decoding_keeps_the_version_it_finds() {
    let decoded = decode_message(&[9, 0, 1, 1]).unwrap();
    assert_eq!(decoded.protocol_version, 9);
    match decoded.message_type {
        MessageType::ButtonEvent { button_number, event_type } => {
            assert_eq!(button_number, ButtonNumber::Button2);
            assert_eq!(event_type, ButtonEventType::LongPress);
        }
        _ => panic!("another kind of message"),
    }
}

#[test]
fn driver_events_become_event_types() {
    assert_eq!(
        ButtonEventType::from(async_button::ButtonEvent::ShortPress { count: 3 }),
        ButtonEventType::ShortPress { count: 3 }
    );
    assert_eq!(
        ButtonEventType::from(async_button::ButtonEvent::LongPress),
        ButtonEventType::LongPress
    );
    let converted: ButtonEventType = async_button::ButtonEvent::ShortPress { count: 0 }.into();
    assert_eq!(converted, ButtonEventType::ShortPress { count: 0 });
}
