//! The wireless message and its bytes.
//!
//! A message is its protocol version in one byte, then the payload: a tag
//! that names the kind, then the fields of that kind in order. Tags and
//! counts are variable-length integers; a button is the tag of its place in
//! the enumeration; a sequence is its length, then its buttons. This is the
//! layout that `postcard` gives these types. Bytes behind the message are
//! left alone, so a message may travel in a buffer longer than itself.

use vstd::prelude::*;
use crate::button::ButtonNumber;
use crate::sequence::{ButtonSequence, SEQUENCE_CAP};
use crate::varint::{
    DecodeError,
    decode_varint,
    encode_varint,
    lemma_parse_u64_roundtrip,
    parse_u64,
    spec_varint,
};

verus! {

/// The protocol version that this library speaks.
pub const PROTOCOL_VERSION: u8 = 0;

/// Tag of `MessageType::ButtonEvent`.
pub const TAG_BUTTON_EVENT: u64 = 0;

/// Tag of `MessageType::ButtonSequenceEvent`.
pub const TAG_BUTTON_SEQUENCE_EVENT: u64 = 1;

/// Tag of `ButtonEventType::ShortPress`.
pub const TAG_SHORT_PRESS: u64 = 0;

/// Tag of `ButtonEventType::LongPress`.
pub const TAG_LONG_PRESS: u64 = 1;

/// How a button was pressed.
#[derive(Clone, Copy, Debug, PartialEq, Eq, Structural)]
#[non_exhaustive]
pub enum ButtonEventType {
    /// A run of short presses.
    ShortPress { count: usize },
    LongPress,
}

/// `async_button::ButtonEvent`, what the button driver detects. Declared with
/// its two variants, as the driver defines them, so that they can be told
/// apart.
#[verifier::external_type_specification]
pub struct ExButtonEvent(async_button::ButtonEvent);

impl From<async_button::ButtonEvent> for ButtonEventType {
    /// The event type of what the button driver detected.
    fn from(value: async_button::ButtonEvent) -> (event_type: Self) {
        match value {
            async_button::ButtonEvent::ShortPress { count } => ButtonEventType::ShortPress {
                count,
            },
            async_button::ButtonEvent::LongPress => ButtonEventType::LongPress,
        }
    }
}

impl vstd::std_specs::convert::FromSpecImpl<async_button::ButtonEvent> for ButtonEventType {
    open spec fn obeys_from_spec() -> bool {
        true
    }

    open spec fn from_spec(value: async_button::ButtonEvent) -> Self {
        match value {
            async_button::ButtonEvent::ShortPress { count } => ButtonEventType::ShortPress {
                count,
            },
            async_button::ButtonEvent::LongPress => ButtonEventType::LongPress,
        }
    }
}

/// What a message carries.
#[derive(Clone, Debug, PartialEq, Eq)]
#[non_exhaustive]
pub enum MessageType {
    /// One button, with how it was pressed.
    ButtonEvent { button_number: ButtonNumber, event_type: ButtonEventType },
    /// A gesture: the buttons pressed, in order.
    ButtonSequenceEvent { sequence: ButtonSequence },
}

/// One message on the wireless link.
#[derive(Clone, Debug, PartialEq, Eq)]
pub struct Message {
    pub protocol_version: u8,
    pub message_type: MessageType,
}

/// What a payload holds.
pub enum PayloadView {
    ButtonEvent { button_number: ButtonNumber, event_type: ButtonEventType },
    ButtonSequenceEvent { sequence: Seq<ButtonNumber> },
}

/// What a message holds.
pub struct MessageView {
    pub protocol_version: u8,
    pub payload: PayloadView,
}

impl View for MessageType {
    type V = PayloadView;

    open spec fn view(&self) -> PayloadView {
        match *self {
            MessageType::ButtonEvent { button_number, event_type } => PayloadView::ButtonEvent {
                button_number,
                event_type,
            },
            MessageType::ButtonSequenceEvent { sequence } => PayloadView::ButtonSequenceEvent {
                sequence: sequence@,
            },
        }
    }
}

impl View for Message {
    type V = MessageView;

    open spec fn view(&self) -> MessageView {
        MessageView { protocol_version: self.protocol_version, payload: self.message_type@ }
    }
}

/// Whether a payload is one that a `MessageType` can hold.
pub open spec fn payload_fits(payload: PayloadView) -> bool {
    match payload {
        PayloadView::ButtonEvent { .. } => true,
        PayloadView::ButtonSequenceEvent { sequence } => sequence.len() <= SEQUENCE_CAP,
    }
}

/// The bytes of a run of buttons: one byte each, the button's place in the
/// enumeration.
pub open spec fn spec_encode_buttons(buttons: Seq<ButtonNumber>) -> Seq<u8> {
    Seq::new(buttons.len(), |i: int| buttons[i].spec_index())
}

/// The bytes of an event type.
pub open spec fn spec_encode_event_type(event_type: ButtonEventType) -> Seq<u8> {
    match event_type {
        ButtonEventType::ShortPress { count } => spec_varint(TAG_SHORT_PRESS as nat) + spec_varint(
            count as nat,
        ),
        ButtonEventType::LongPress => spec_varint(TAG_LONG_PRESS as nat),
    }
}

/// The bytes of a payload.
pub open spec fn spec_encode_payload(payload: PayloadView) -> Seq<u8> {
    match payload {
        PayloadView::ButtonEvent { button_number, event_type } => spec_varint(
            TAG_BUTTON_EVENT as nat,
        ) + spec_varint(button_number.spec_index() as nat) + spec_encode_event_type(event_type),
        PayloadView::ButtonSequenceEvent { sequence } => spec_varint(
            TAG_BUTTON_SEQUENCE_EVENT as nat,
        ) + spec_varint(sequence.len()) + spec_encode_buttons(sequence),
    }
}

/// The bytes of a message.
pub open spec fn spec_encode_message(message: MessageView) -> Seq<u8> {
    seq![message.protocol_version] + spec_encode_payload(message.payload)
}

/// The button at the front of `bytes`, and the bytes behind it.
pub open spec fn parse_button(bytes: Seq<u8>) -> Result<(ButtonNumber, Seq<u8>), DecodeError> {
    match parse_u64(bytes) {
        Ok((tag, rest)) => match ButtonNumber::spec_from_index(tag as int) {
            Some(button) => Ok((button, rest)),
            None => Err(DecodeError::UnknownTag),
        },
        Err(e) => Err(e),
    }
}

/// The event type at the front of `bytes`, and the bytes behind it.
pub open spec fn parse_event_type(bytes: Seq<u8>) -> Result<
    (ButtonEventType, Seq<u8>),
    DecodeError,
> {
    match parse_u64(bytes) {
        Ok((tag, rest)) => if tag == TAG_SHORT_PRESS {
            match parse_u64(rest) {
                Ok((count, behind)) => if count > usize::MAX {
                    Err(DecodeError::BadVarint)
                } else {
                    Ok((ButtonEventType::ShortPress { count: count as usize }, behind))
                },
                Err(e) => Err(e),
            }
        } else if tag == TAG_LONG_PRESS {
            Ok((ButtonEventType::LongPress, rest))
        } else {
            Err(DecodeError::UnknownTag)
        },
        Err(e) => Err(e),
    }
}

/// The `count` buttons at the front of `bytes`, and the bytes behind them.
pub open spec fn parse_buttons(bytes: Seq<u8>, count: nat) -> Result<
    (Seq<ButtonNumber>, Seq<u8>),
    DecodeError,
>
    decreases count,
{
    if count == 0 {
        Ok((Seq::empty(), bytes))
    } else {
        match parse_button(bytes) {
            Ok((button, rest)) => match parse_buttons(rest, (count - 1) as nat) {
                Ok((buttons, behind)) => Ok((seq![button] + buttons, behind)),
                Err(e) => Err(e),
            },
            Err(e) => Err(e),
        }
    }
}

/// The payload at the front of `bytes`, and the bytes behind it.
pub open spec fn parse_payload(bytes: Seq<u8>) -> Result<(PayloadView, Seq<u8>), DecodeError> {
    match parse_u64(bytes) {
        Ok((tag, rest)) => if tag == TAG_BUTTON_EVENT {
            match parse_button(rest) {
                Ok((button_number, behind)) => match parse_event_type(behind) {
                    Ok((event_type, end)) => Ok(
                        (PayloadView::ButtonEvent { button_number, event_type }, end),
                    ),
                    Err(e) => Err(e),
                },
                Err(e) => Err(e),
            }
        } else if tag == TAG_BUTTON_SEQUENCE_EVENT {
            match parse_u64(rest) {
                Ok((count, behind)) => if count > SEQUENCE_CAP {
                    Err(DecodeError::TooLong)
                } else {
                    match parse_buttons(behind, count as nat) {
                        Ok((sequence, end)) => Ok(
                            (PayloadView::ButtonSequenceEvent { sequence }, end),
                        ),
                        Err(e) => Err(e),
                    }
                },
                Err(e) => Err(e),
            }
        } else {
            Err(DecodeError::UnknownTag)
        },
        Err(e) => Err(e),
    }
}

/// The message at the front of `bytes`. What lies behind it is not looked at.
pub open spec fn spec_decode_message(bytes: Seq<u8>) -> Result<MessageView, DecodeError> {
    if bytes.len() == 0 {
        Err(DecodeError::Truncated)
    } else {
        match parse_payload(bytes.skip(1)) {
            Ok((payload, _)) => Ok(MessageView { protocol_version: bytes[0], payload }),
            Err(e) => Err(e),
        }
    }
}

/// `buttons` in front of what `parsed` found.
pub open spec fn buttons_then(
    buttons: Seq<ButtonNumber>,
    parsed: Result<(Seq<ButtonNumber>, Seq<u8>), DecodeError>,
) -> Result<(Seq<ButtonNumber>, Seq<u8>), DecodeError> {
    match parsed {
        Ok((more, rest)) => Ok((buttons + more, rest)),
        Err(e) => Err(e),
    }
}

fn encode_event_type(event_type: ButtonEventType, out: &mut Vec<u8>)
    ensures
        final(out)@ == old(out)@ + spec_encode_event_type(event_type),
{
    match event_type {
        ButtonEventType::ShortPress { count } => {
            encode_varint(TAG_SHORT_PRESS, out);
            encode_varint(count as u64, out);
            assert(out@ =~= old(out)@ + spec_encode_event_type(event_type));
        },
        ButtonEventType::LongPress => {
            encode_varint(TAG_LONG_PRESS, out);
        },
    }
}

fn encode_buttons(sequence: &ButtonSequence, out: &mut Vec<u8>)
    ensures
        final(out)@ == old(out)@ + spec_encode_buttons(sequence@),
{
    let n: usize = sequence.len();
    let mut i: usize = 0;
    while i < n
        invariant
            n == sequence@.len(),
            i <= n,
            out@ == old(out)@ + spec_encode_buttons(sequence@.take(i as int)),
        decreases n - i,
    {
        let ghost before = out@;
        match sequence.get(i) {
            Some(button) => {
                out.push(button.index());
            },
            None => {},
        }
        i += 1;
        assert(out@ =~= old(out)@ + spec_encode_buttons(sequence@.take(i as int)));
    }
    assert(sequence@.take(n as int) =~= sequence@);
}

/// The bytes of `message`.
pub fn encode_message(message: &Message) -> (bytes: Vec<u8>)
    ensures
        bytes@ == spec_encode_message(message@),
        payload_fits(message@.payload),
{
    let mut out: Vec<u8> = Vec::new();
    out.push(message.protocol_version);
    match &message.message_type {
        MessageType::ButtonEvent { button_number, event_type } => {
            encode_varint(TAG_BUTTON_EVENT, &mut out);
            encode_varint(button_number.index() as u64, &mut out);
            encode_event_type(*event_type, &mut out);
            assert(out@ =~= spec_encode_message(message@));
        },
        MessageType::ButtonSequenceEvent { sequence } => {
            encode_varint(TAG_BUTTON_SEQUENCE_EVENT, &mut out);
            encode_varint(sequence.len() as u64, &mut out);
            encode_buttons(sequence, &mut out);
            assert(out@ =~= spec_encode_message(message@));
        },
    }
    out
}

fn decode_button(bytes: &[u8], at: usize) -> (result: Result<(ButtonNumber, usize), DecodeError>)
    requires
        at <= bytes@.len(),
    ensures
        match parse_button(bytes@.skip(at as int)) {
            Ok((button, rest)) => result matches Ok((b, next)) && b == button && at < next
                <= bytes@.len() && rest == bytes@.skip(next as int),
            Err(e) => result == Err::<(ButtonNumber, usize), DecodeError>(e),
        },
{
    match decode_varint(bytes, at) {
        Ok((tag, next)) => {
            if tag < 4 {
                match ButtonNumber::from_index(tag as u8) {
                    Some(button) => Ok((button, next)),
                    None => Err(DecodeError::UnknownTag),
                }
            } else {
                Err(DecodeError::UnknownTag)
            }
        },
        Err(e) => Err(e),
    }
}

fn decode_event_type(bytes: &[u8], at: usize) -> (result: Result<
    (ButtonEventType, usize),
    DecodeError,
>)
    requires
        at <= bytes@.len(),
    ensures
        match parse_event_type(bytes@.skip(at as int)) {
            Ok((event_type, rest)) => result matches Ok((t, next)) && t == event_type && at < next
                <= bytes@.len() && rest == bytes@.skip(next as int),
            Err(e) => result == Err::<(ButtonEventType, usize), DecodeError>(e),
        },
{
    match decode_varint(bytes, at) {
        Ok((tag, next)) => {
            if tag == TAG_SHORT_PRESS {
                match decode_varint(bytes, next) {
                    Ok((count, end)) => {
                        if count > usize::MAX as u64 {
                            Err(DecodeError::BadVarint)
                        } else {
                            Ok((ButtonEventType::ShortPress { count: count as usize }, end))
                        }
                    },
                    Err(e) => Err(e),
                }
            } else if tag == TAG_LONG_PRESS {
                Ok((ButtonEventType::LongPress, next))
            } else {
                Err(DecodeError::UnknownTag)
            }
        },
        Err(e) => Err(e),
    }
}

fn decode_buttons(bytes: &[u8], at: usize, count: usize) -> (result: Result<
    (ButtonSequence, usize),
    DecodeError,
>)
    requires
        at <= bytes@.len(),
        count <= SEQUENCE_CAP,
    ensures
        match parse_buttons(bytes@.skip(at as int), count as nat) {
            Ok((buttons, rest)) => result matches Ok((s, next)) && s@ == buttons && at <= next
                <= bytes@.len() && rest == bytes@.skip(next as int),
            Err(e) => result matches Err(x) && x == e,
        },
{
    let ghost whole = parse_buttons(bytes@.skip(at as int), count as nat);
    let mut sequence = ButtonSequence::new();
    let mut i: usize = at;
    let mut k: usize = 0;
    assert(buttons_then(sequence@, whole) == whole) by {
        match whole {
            Ok((more, rest)) => {
                assert(sequence@ + more =~= more);
            },
            Err(e) => {},
        }
    }
    while k < count
        invariant
            whole == parse_buttons(bytes@.skip(at as int), count as nat),
            at <= i <= bytes@.len(),
            k <= count <= SEQUENCE_CAP,
            sequence@.len() == k,
            whole == buttons_then(
                sequence@,
                parse_buttons(bytes@.skip(i as int), (count - k) as nat),
            ),
        decreases count - k,
    {
        let ghost held = sequence@;
        let ghost here = bytes@.skip(i as int);
        match decode_button(bytes, i) {
            Ok((button, next)) => {
                sequence.push(button);
                proof {
                    let after = parse_buttons(bytes@.skip(next as int), (count - k - 1) as nat);
                    match after {
                        Ok((more, rest)) => {
                            assert(held + (seq![button] + more) =~= held.push(button) + more);
                        },
                        Err(e) => {},
                    }
                }
                i = next;
                k += 1;
            },
            Err(e) => {
                return Err(e);
            },
        }
    }
    proof {
        let rest = parse_buttons(bytes@.skip(i as int), 0);
        assert(sequence@ + Seq::<ButtonNumber>::empty() =~= sequence@);
    }
    Ok((sequence, i))
}

/// Reads the message at the front of `bytes`. Bytes behind it are not looked
/// at. Gives the message whatever its protocol version is.
pub fn decode_message(bytes: &[u8]) -> (result: Result<Message, DecodeError>)
    ensures
        match spec_decode_message(bytes@) {
            Ok(message) => result matches Ok(m) && m@ == message,
            Err(e) => result matches Err(x) && x == e,
        },
{
    if bytes.len() == 0 {
        return Err(DecodeError::Truncated);
    }
    let protocol_version: u8 = bytes[0];
    let (tag, next) = match decode_varint(bytes, 1) {
        Ok(read) => read,
        Err(e) => {
            return Err(e);
        },
    };
    if tag == TAG_BUTTON_EVENT {
        let (button_number, behind) = match decode_button(bytes, next) {
            Ok(read) => read,
            Err(e) => {
                return Err(e);
            },
        };
        let (event_type, _) = match decode_event_type(bytes, behind) {
            Ok(read) => read,
            Err(e) => {
                return Err(e);
            },
        };
        Ok(
            Message {
                protocol_version,
                message_type: MessageType::ButtonEvent { button_number, event_type },
            },
        )
    } else if tag == TAG_BUTTON_SEQUENCE_EVENT {
        let (count, behind) = match decode_varint(bytes, next) {
            Ok(read) => read,
            Err(e) => {
                return Err(e);
            },
        };
        if count > SEQUENCE_CAP as u64 {
            return Err(DecodeError::TooLong);
        }
        let (sequence, _) = match decode_buttons(bytes, behind, count as usize) {
            Ok(read) => read,
            Err(e) => {
                return Err(e);
            },
        };
        Ok(Message { protocol_version, message_type: MessageType::ButtonSequenceEvent { sequence } })
    } else {
        Err(DecodeError::UnknownTag)
    }
}

/// A button that was written is read back.
pub proof fn lemma_parse_button_roundtrip(button: ButtonNumber, tail: Seq<u8>)
    ensures
        parse_button(spec_varint(button.spec_index() as nat) + tail) == Ok::<
            (ButtonNumber, Seq<u8>),
            DecodeError,
        >((button, tail)),
{
    lemma_parse_u64_roundtrip(button.spec_index() as u64, tail);
}

/// An event type that was written is read back.
pub proof fn lemma_parse_event_type_roundtrip(event_type: ButtonEventType, tail: Seq<u8>)
    ensures
        parse_event_type(spec_encode_event_type(event_type) + tail) == Ok::<
            (ButtonEventType, Seq<u8>),
            DecodeError,
        >((event_type, tail)),
{
    match event_type {
        ButtonEventType::ShortPress { count } => {
            let counted = spec_varint(count as nat) + tail;
            assert(spec_encode_event_type(event_type) + tail =~= spec_varint(
                TAG_SHORT_PRESS as nat,
            ) + counted);
            lemma_parse_u64_roundtrip(TAG_SHORT_PRESS, counted);
            lemma_parse_u64_roundtrip(count as u64, tail);
        },
        ButtonEventType::LongPress => {
            lemma_parse_u64_roundtrip(TAG_LONG_PRESS, tail);
        },
    }
}

/// A run of buttons that was written is read back.
pub proof fn lemma_parse_buttons_roundtrip(buttons: Seq<ButtonNumber>, tail: Seq<u8>)
    ensures
        parse_buttons(spec_encode_buttons(buttons) + tail, buttons.len()) == Ok::<
            (Seq<ButtonNumber>, Seq<u8>),
            DecodeError,
        >((buttons, tail)),
    decreases buttons.len(),
{
    let bytes = spec_encode_buttons(buttons) + tail;
    if buttons.len() == 0 {
        assert(bytes =~= tail);
        assert(buttons =~= Seq::<ButtonNumber>::empty());
    } else {
        let first = buttons[0];
        let others = buttons.skip(1);
        let behind = spec_encode_buttons(others) + tail;
        assert(spec_varint(first.spec_index() as nat) =~= seq![first.spec_index()]);
        assert(bytes =~= spec_varint(first.spec_index() as nat) + behind);
        lemma_parse_button_roundtrip(first, behind);
        lemma_parse_buttons_roundtrip(others, tail);
        assert(seq![first] + others =~= buttons);
        assert(parse_button(bytes) == Ok::<(ButtonNumber, Seq<u8>), DecodeError>((first, behind)));
        assert(parse_buttons(behind, (buttons.len() - 1) as nat) == Ok::<
            (Seq<ButtonNumber>, Seq<u8>),
            DecodeError,
        >((others, tail)));
    }
}

/// What was written is read back: the bytes of a message, with anything
/// behind them, decode to that message.
pub proof fn lemma_message_roundtrip(message: MessageView, tail: Seq<u8>)
    requires
        payload_fits(message.payload),
    ensures
        spec_decode_message(spec_encode_message(message) + tail) == Ok::<
            MessageView,
            DecodeError,
        >(message),
{
    let bytes = spec_encode_message(message) + tail;
    let body = spec_encode_payload(message.payload) + tail;
    assert(bytes.skip(1) =~= body);
    assert(bytes[0] == message.protocol_version);
    match message.payload {
        PayloadView::ButtonEvent { button_number, event_type } => {
            let typed = spec_encode_event_type(event_type) + tail;
            let numbered = spec_varint(button_number.spec_index() as nat) + typed;
            assert(body =~= spec_varint(TAG_BUTTON_EVENT as nat) + numbered);
            lemma_parse_u64_roundtrip(TAG_BUTTON_EVENT, numbered);
            lemma_parse_button_roundtrip(button_number, typed);
            lemma_parse_event_type_roundtrip(event_type, tail);
        },
        PayloadView::ButtonSequenceEvent { sequence } => {
            let listed = spec_encode_buttons(sequence) + tail;
            let counted = spec_varint(sequence.len()) + listed;
            assert(body =~= spec_varint(TAG_BUTTON_SEQUENCE_EVENT as nat) + counted);
            lemma_parse_u64_roundtrip(TAG_BUTTON_SEQUENCE_EVENT, counted);
            lemma_parse_u64_roundtrip(sequence.len() as u64, listed);
            lemma_parse_buttons_roundtrip(sequence, tail);
        },
    }
}

} // verus!
