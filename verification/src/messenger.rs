//! The wireless messenger.
//!
//! The sender puts a message into a datagram of fixed length and broadcasts
//! it; nothing is acknowledged and nothing is sent twice. The receiver looks
//! only at datagrams that went to the broadcast address and came from a
//! paired peer, drops what it cannot read or what speaks another protocol
//! version, and turns every message it accepts into a trigger for the
//! animation scheduler.

use vstd::prelude::*;
use crate::button::ButtonNumber;
use crate::pairing::ADDRESS_LEN;
use crate::sequence::ButtonSequence;
use crate::varint::{DecodeError, lemma_varint_len_u64};
use crate::wire::{
    ButtonEventType,
    Message,
    MessageType,
    MessageView,
    PROTOCOL_VERSION,
    PayloadView,
    decode_message,
    encode_message,
    lemma_message_roundtrip,
    payload_fits,
    spec_decode_message,
    spec_encode_message,
};

verus! {

/// Bytes in every datagram that is sent.
pub const DATAGRAM_LEN: usize = 32;

/// The most bytes a message takes.
pub const MAX_MESSAGE_LEN: usize = 14;

/// Every byte of the broadcast address.
pub const BROADCAST_OCTET: u8 = 0xff;

/// Why a datagram's message was not handed out.
#[derive(Clone, Copy, Debug, PartialEq, Eq, Structural)]
pub enum Rejection {
    /// The bytes are no message.
    Malformed(DecodeError),
    /// The message speaks another protocol version.
    VersionMismatch { found: u8 },
}

/// What the receiver makes of one datagram.
#[derive(Clone, Copy, Debug, PartialEq, Eq, Structural)]
pub enum Reception {
    /// Not for this device: not broadcast, or not from a paired peer.
    Ignored,
    /// Dropped: the bytes could not be read.
    DecodeFailed(DecodeError),
    /// Dropped: the message speaks another protocol version.
    VersionMismatch { found: u8 },
    /// Dropped: the message is of a kind that this version does not know.
    UnknownKind,
    /// Accepted: the animation scheduler is to be triggered.
    Trigger,
}

/// Whether `address` is the broadcast address.
pub open spec fn spec_is_broadcast(address: Seq<u8>) -> bool {
    address == Seq::new(ADDRESS_LEN as nat, |i: int| BROADCAST_OCTET)
}

/// `count` zero bytes.
pub open spec fn zeros(count: nat) -> Seq<u8> {
    Seq::new(count, |i: int| 0u8)
}

/// The datagram of a message: its bytes, then zeros up to the datagram's
/// length.
pub open spec fn spec_datagram(message: MessageView) -> Seq<u8> {
    spec_encode_message(message) + zeros(
        (DATAGRAM_LEN - spec_encode_message(message).len()) as nat,
    )
}

/// The payload of the message at the front of `bytes`, for a receiver that
/// speaks `version`.
pub open spec fn spec_decode_for_version(bytes: Seq<u8>, version: u8) -> Result<
    PayloadView,
    Rejection,
> {
    match spec_decode_message(bytes) {
        Ok(message) => if message.protocol_version == version {
            Ok(message.payload)
        } else {
            Err(Rejection::VersionMismatch { found: message.protocol_version })
        },
        Err(e) => Err(Rejection::Malformed(e)),
    }
}

/// What the receiver makes of a datagram, given whether it passed the
/// address filter.
pub open spec fn spec_receive(admitted: bool, data: Seq<u8>) -> Reception {
    if !admitted {
        Reception::Ignored
    } else {
        match spec_decode_for_version(data, PROTOCOL_VERSION) {
            Ok(_) => Reception::Trigger,
            Err(Rejection::VersionMismatch { found }) => Reception::VersionMismatch { found },
            Err(Rejection::Malformed(DecodeError::UnknownTag)) => Reception::UnknownKind,
            Err(Rejection::Malformed(e)) => Reception::DecodeFailed(e),
        }
    }
}

/// The bytes of the addresses in a peer list.
pub open spec fn addresses(peers: Seq<[u8; 6]>) -> Seq<Seq<u8>> {
    Seq::new(peers.len(), |i: int| peers[i]@)
}

/// The peers whose datagrams the receiver looks at.
#[derive(Clone, Debug)]
pub struct PeerList {
    peers: Vec<[u8; 6]>,
}

impl View for PeerList {
    type V = Seq<Seq<u8>>;

    closed spec fn view(&self) -> Seq<Seq<u8>> {
        addresses(self.peers@)
    }
}

/// Whether two addresses are the same.
pub fn same_address(first: &[u8; 6], second: &[u8; 6]) -> (same: bool)
    ensures
        same == (first@ == second@),
{
    let mut i: usize = 0;
    while i < ADDRESS_LEN
        invariant
            i <= ADDRESS_LEN,
            first@.take(i as int) == second@.take(i as int),
        decreases ADDRESS_LEN - i,
    {
        if first[i] != second[i] {
            return false;
        }
        i += 1;
        assert(first@.take(i as int) =~= first@.take(i - 1).push(first@[i - 1]));
        assert(second@.take(i as int) =~= second@.take(i - 1).push(second@[i - 1]));
    }
    assert(first@.take(ADDRESS_LEN as int) =~= first@);
    assert(second@.take(ADDRESS_LEN as int) =~= second@);
    true
}

/// Whether `address` is the broadcast address.
pub fn is_broadcast(address: &[u8; 6]) -> (broadcast: bool)
    ensures
        broadcast == spec_is_broadcast(address@),
{
    let mut i: usize = 0;
    while i < ADDRESS_LEN
        invariant
            i <= ADDRESS_LEN,
            forall|k: int| 0 <= k < i ==> address@[k] == BROADCAST_OCTET,
        decreases ADDRESS_LEN - i,
    {
        if address[i] != BROADCAST_OCTET {
            assert(Seq::new(ADDRESS_LEN as nat, |k: int| BROADCAST_OCTET)[i as int]
                == BROADCAST_OCTET);
            return false;
        }
        i += 1;
    }
    assert(address@ =~= Seq::new(ADDRESS_LEN as nat, |k: int| BROADCAST_OCTET));
    true
}

/// The address that every datagram is sent to.
pub fn broadcast_address() -> (address: [u8; 6])
    ensures
        spec_is_broadcast(address@),
{
    let address: [u8; 6] = [
        BROADCAST_OCTET,
        BROADCAST_OCTET,
        BROADCAST_OCTET,
        BROADCAST_OCTET,
        BROADCAST_OCTET,
        BROADCAST_OCTET,
    ];
    assert(address@ =~= Seq::new(ADDRESS_LEN as nat, |k: int| BROADCAST_OCTET));
    address
}

impl PeerList {
    /// A list without peers.
    pub fn new() -> (list: Self)
        ensures
            list@ == Seq::<Seq<u8>>::empty(),
    {
        let list = PeerList { peers: Vec::new() };
        assert(list@ =~= Seq::<Seq<u8>>::empty());
        list
    }

    /// Number of peers.
    pub fn len(&self) -> (n: usize)
        ensures
            n == self@.len(),
    {
        self.peers.len()
    }

    /// Whether `address` is a peer.
    pub fn contains(&self, address: &[u8; 6]) -> (found: bool)
        ensures
            found == self@.contains(address@),
    {
        let mut i: usize = 0;
        while i < self.peers.len()
            invariant
                i <= self.peers@.len(),
                forall|k: int| 0 <= k < i ==> self@[k] != address@,
            decreases self.peers@.len() - i,
        {
            if same_address(&self.peers[i], address) {
                assert(self@[i as int] == address@);
                return true;
            }
            i += 1;
        }
        false
    }

    /// Makes `address` a peer. One that is a peer already is not added again.
    pub fn add(&mut self, address: [u8; 6]) -> (added: bool)
        ensures
            added == !old(self)@.contains(address@),
            final(self)@ == if added {
                old(self)@.push(address@)
            } else {
                old(self)@
            },
    {
        if self.contains(&address) {
            false
        } else {
            self.peers.push(address);
            assert(self@ =~= old(self)@.push(address@));
            true
        }
    }
}

/// The message that carries one button event in this protocol version.
pub fn message_for_event(button_number: ButtonNumber, event_type: ButtonEventType) -> (message:
    Message)
    ensures
        message@ == (MessageView {
            protocol_version: PROTOCOL_VERSION,
            payload: PayloadView::ButtonEvent { button_number, event_type },
        }),
{
    Message {
        protocol_version: PROTOCOL_VERSION,
        message_type: MessageType::ButtonEvent { button_number, event_type },
    }
}

/// The message that carries one flushed sequence in this protocol version.
pub fn message_for_sequence(sequence: ButtonSequence) -> (message: Message)
    ensures
        message@ == (MessageView {
            protocol_version: PROTOCOL_VERSION,
            payload: PayloadView::ButtonSequenceEvent { sequence: sequence@ },
        }),
{
    Message {
        protocol_version: PROTOCOL_VERSION,
        message_type: MessageType::ButtonSequenceEvent { sequence },
    }
}

/// No message takes more than `MAX_MESSAGE_LEN` bytes, so each fits a
/// datagram.
pub proof fn lemma_message_len(message: MessageView)
    requires
        payload_fits(message.payload),
    ensures
        3 <= spec_encode_message(message).len() <= MAX_MESSAGE_LEN,
{
    match message.payload {
        PayloadView::ButtonEvent { button_number, event_type } => {
            match event_type {
                ButtonEventType::ShortPress { count } => {
                    lemma_varint_len_u64(count as u64);
                },
                ButtonEventType::LongPress => {},
            }
        },
        PayloadView::ButtonSequenceEvent { sequence } => {},
    }
}

/// The datagram to broadcast for `message`: the message's bytes, filled up
/// with zeros to `DATAGRAM_LEN`.
pub fn datagram(message: &Message) -> (bytes: Vec<u8>)
    ensures
        bytes@ == spec_datagram(message@),
        bytes@.len() == DATAGRAM_LEN,
{
    let mut out: Vec<u8> = encode_message(message);
    proof {
        lemma_message_len(message@);
    }
    let ghost encoded = out@;
    while out.len() < DATAGRAM_LEN
        invariant
            encoded.len() <= out@.len() <= DATAGRAM_LEN,
            out@ == encoded + zeros((out@.len() - encoded.len()) as nat),
        decreases DATAGRAM_LEN - out@.len(),
    {
        let ghost before = out@;
        out.push(0);
        assert(out@ =~= encoded + zeros((out@.len() - encoded.len()) as nat));
    }
    out
}

/// Reads the message at the front of `bytes` for a receiver that speaks
/// `version`. The payload is handed out only where the bytes are a message of
/// that version; a message of another version is rejected as such.
pub fn decode_for_version(bytes: &[u8], version: u8) -> (result: Result<MessageType, Rejection>)
    ensures
        match spec_decode_for_version(bytes@, version) {
            Ok(payload) => result matches Ok(p) && p@ == payload,
            Err(e) => result matches Err(x) && x == e,
        },
{
    match decode_message(bytes) {
        Ok(message) => {
            if message.protocol_version == version {
                Ok(message.message_type)
            } else {
                Err(Rejection::VersionMismatch { found: message.protocol_version })
            }
        },
        Err(e) => Err(Rejection::Malformed(e)),
    }
}

/// Handles one datagram: `destination` and `source` are the addresses it
/// came with, `data` its bytes, `peers` the paired peers. A datagram that was
/// not broadcast or does not come from a peer is ignored. Of the others, one
/// that holds a message of this protocol version triggers the scheduler, and
/// every other is dropped with the reason.
pub fn receive(destination: &[u8; 6], source: &[u8; 6], data: &[u8], peers: &PeerList) -> (reception:
    Reception)
    ensures
        reception == spec_receive(
            spec_is_broadcast(destination@) && peers@.contains(source@),
            data@,
        ),
{
    if !(is_broadcast(destination) && peers.contains(source)) {
        return Reception::Ignored;
    }
    match decode_for_version(data, PROTOCOL_VERSION) {
        Ok(_) => Reception::Trigger,
        Err(Rejection::VersionMismatch { found }) => Reception::VersionMismatch { found },
        Err(Rejection::Malformed(e)) => match e {
            DecodeError::UnknownTag => Reception::UnknownKind,
            _ => Reception::DecodeFailed(e),
        },
    }
}

/// A message that was put into a datagram is read back by a receiver of the
/// message's version, and rejected for its version by every other receiver:
/// no receiver of another version gets a payload.
pub proof fn lemma_datagram_roundtrip(message: MessageView, version: u8)
    requires
        payload_fits(message.payload),
    ensures
        spec_decode_message(spec_datagram(message)) == Ok::<MessageView, DecodeError>(message),
        spec_decode_for_version(spec_datagram(message), version) == if version
            == message.protocol_version {
            Ok::<PayloadView, Rejection>(message.payload)
        } else {
            Err::<PayloadView, Rejection>(
                Rejection::VersionMismatch { found: message.protocol_version },
            )
        },
{
    lemma_message_len(message);
    lemma_message_roundtrip(
        message,
        zeros((DATAGRAM_LEN - spec_encode_message(message).len()) as nat),
    );
}

/// Every datagram that a paired peer broadcasts in this protocol version
/// triggers the scheduler.
pub proof fn lemma_own_datagram_triggers(payload: PayloadView)
    requires
        payload_fits(payload),
    ensures
        spec_receive(
            true,
            spec_datagram(MessageView { protocol_version: PROTOCOL_VERSION, payload }),
        ) == Reception::Trigger,
{
    lemma_datagram_roundtrip(
        MessageView { protocol_version: PROTOCOL_VERSION, payload },
        PROTOCOL_VERSION,
    );
}

} // verus!
