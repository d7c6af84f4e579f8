use spark::button::ButtonNumber;
use spark::messenger::{
    datagram, decode_for_version, is_broadcast, message_for_event, message_for_sequence, receive,
    same_address, PeerList, Reception, Rejection, DATAGRAM_LEN,
};
use spark::sequence::ButtonSequence;
use spark::varint::DecodeError;
use spark::wire::{ButtonEventType, Message, MessageType, PROTOCOL_VERSION};

const BROADCAST: [u8; 6] = [0xff; 6];
const REMOTE: [u8; 6] = [0xc8, 0xf0, 0x9e, 0x2c, 0x28, 0x8c];
const STRANGER: [u8; 6] = [0xc8, 0xf0, 0x9e, 0x2c, 0x28, 0x8d];

fn paired() -> PeerList {
    let mut peers = PeerList::new();
    assert!(peers.add(REMOTE));
    peers
}

fn padded(bytes: &[u8]) -> Vec<u8> {
    let mut out = bytes.to_vec();
    out.resize(DATAGRAM_LEN, 0);
    out
}

#[test]
fn a_datagram_is_the_message_filled_up_with_zeros() {
    let message = message_for_event(ButtonNumber::Button2, ButtonEventType::ShortPress { count: 3 });
    let bytes = datagram(&message);
    assert_eq!(bytes.len(), 32);
    assert_eq!(bytes, padded(&[0, 0, 1, 0, 3]));

    let sequence = ButtonSequence::from_slice(&[ButtonNumber::Button2; 3]);
    let bytes = datagram(&message_for_sequence(sequence));
    assert_eq!(bytes, padded(&[0, 1, 3, 1, 1, 1]));

    let longest =
        message_for_event(ButtonNumber::Button4, ButtonEventType::ShortPress { count: usize::MAX });
    assert_eq!(datagram(&longest).len(), 32);
}

#[test]
fn messages_are_made_in_this_protocol_version() {
    let message = message_for_event(ButtonNumber::Button1, ButtonEventType::LongPress);
    assert_eq!(message.protocol_version, PROTOCOL_VERSION);
    assert_eq!(
        message.message_type,
        MessageType::ButtonEvent {
            button_number: ButtonNumber::Button1,
            event_type: ButtonEventType::LongPress
        }
    );
    let sequence = ButtonSequence::from_slice(&[ButtonNumber::Button4, ButtonNumber::Button1]);
    let message = message_for_sequence(sequence.clone());
    assert_eq!(message.protocol_version, PROTOCOL_VERSION);
    assert_eq!(message.message_type, MessageType::ButtonSequenceEvent { sequence });
}

#[test]
fn a_datagram_is_read_back_by_a_receiver_of_its_version() {
    let payloads = vec![
        MessageType::ButtonEvent {
            button_number: ButtonNumber::Button3,
            event_type: ButtonEventType::ShortPress { count: 2 },
        },
        MessageType::ButtonEvent {
            button_number: ButtonNumber::Button1,
            event_type: ButtonEventType::LongPress,
        },
        MessageType::ButtonSequenceEvent {
            sequence: ButtonSequence::from_slice(&[ButtonNumber::Button2; 5]),
        },
    ];
    for payload in payloads {
        for version in [0u8, 1, 200] {
            let message = Message { protocol_version: version, message_type: payload.clone() };
            let bytes = datagram(&message);
            assert_eq!(decode_for_version(&bytes, version), Ok(payload.clone()));
            // Every other receiver rejects it for its version and gets no
            // payload.
            for other in 0..=255u8 {
                if other != version {
                    assert_eq!(
                        decode_for_version(&bytes, other),
                        Err(Rejection::VersionMismatch { found: version })
                    );
                }
            }
        }
    }
}

#[test]
fn bytes_that_are_no_message_are_malformed_for_every_version() {
    assert_eq!(decode_for_version(&[], 0), Err(Rejection::Malformed(DecodeError::Truncated)));
    assert_eq!(
        decode_for_version(&[5, 0x80, 0x00], 0),
        Err(Rejection::Malformed(DecodeError::BadVarint))
    );
    assert_eq!(
        decode_for_version(&[5, 9], 5),
        Err(Rejection::Malformed(DecodeError::UnknownTag))
    );
}

#[test]
fn addresses_compare_byte_by_byte() {
    assert!(same_address(&REMOTE, &REMOTE));
    assert!(!same_address(&REMOTE, &STRANGER));
    assert!(is_broadcast(&BROADCAST));
    assert!(!is_broadcast(&REMOTE));
    assert!(!is_broadcast(&[0xff, 0xff, 0xff, 0xff, 0xff, 0xfe]));
    assert!(!is_broadcast(&[0xfe, 0xff, 0xff, 0xff, 0xff, 0xff]));
}

#[test]
fn a_peer_is_listed_once() {
    let mut peers = PeerList::new();
    assert_eq!(peers.len(), 0);
    assert!(!peers.contains(&REMOTE));
    assert!(peers.add(REMOTE));
    assert!(!peers.add(REMOTE));
    assert!(peers.add(STRANGER));
    assert_eq!(peers.len(), 2);
    assert!(peers.contains(&REMOTE));
    assert!(peers.contains(&STRANGER));
    assert!(!peers.contains(&BROADCAST));
}

#[test]
fn a_broadcast_from_the_paired_remote_triggers() {
    let peers = paired();
    let event = datagram(&message_for_event(ButtonNumber::Button1, ButtonEventType::LongPress));
    assert_eq!(receive(&BROADCAST, &REMOTE, &event, &peers), Reception::Trigger);
    let gesture =
        datagram(&message_for_sequence(ButtonSequence::from_slice(&[ButtonNumber::Button2; 3])));
    assert_eq!(receive(&BROADCAST, &REMOTE, &gesture, &peers), Reception::Trigger);
}

#[test]
fn datagrams_from_elsewhere_or_to_elsewhere_are_ignored() {
    let peers = paired();
    let event = datagram(&message_for_event(ButtonNumber::Button1, ButtonEventType::LongPress));
    assert_eq!(receive(&BROADCAST, &STRANGER, &event, &peers), Reception::Ignored);
    assert_eq!(receive(&REMOTE, &REMOTE, &event, &peers), Reception::Ignored);
    assert_eq!(receive(&BROADCAST, &REMOTE, &event, &PeerList::new()), Reception::Ignored);
    // Not even looked at: malformed bytes from a stranger are ignored, not
    // reported.
    assert_eq!(receive(&BROADCAST, &STRANGER, &[], &peers), Reception::Ignored);
}

#[test]
fn what_cannot_be_accepted_is_dropped_with_its_reason() {
    let peers = paired();
    let other_version = datagram(&Message {
        protocol_version: 1,
        message_type: MessageType::ButtonEvent {
            button_number: ButtonNumber::Button1,
            event_type: ButtonEventType::LongPress,
        },
    });
    assert_eq!(
        receive(&BROADCAST, &REMOTE, &other_version, &peers),
        Reception::VersionMismatch { found: 1 }
    );
    assert_eq!(
        receive(&BROADCAST, &REMOTE, &padded(&[0, 2, 1, 1]), &peers),
        Reception::UnknownKind
    );
    assert_eq!(
        receive(&BROADCAST, &REMOTE, &[], &peers),
        Reception::DecodeFailed(DecodeError::Truncated)
    );
    assert_eq!(
        receive(&BROADCAST, &REMOTE, &padded(&[0, 0x80]), &peers),
        Reception::DecodeFailed(DecodeError::BadVarint)
    );
    assert_eq!(
        receive(&BROADCAST, &REMOTE, &padded(&[0, 1, 6]), &peers),
        Reception::DecodeFailed(DecodeError::TooLong)
    );
}
