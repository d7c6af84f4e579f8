//! The pairing link: the handshake that two devices exchange once, over a
//! bus of their own, to learn each other's wireless address.
//!
//! Each frame is a body followed by the body's 32-bit checksum, lowest byte
//! first. A command's body is the protocol version, the tag of its kind, and
//! the sender's address; a response's body is the protocol version and the
//! sender's address. A frame is trusted only once its checksum has verified.

use vstd::prelude::*;
use vstd::bytes::{
    lemma_auto_spec_u32_to_from_le_bytes,
    spec_u32_from_le_bytes,
    spec_u32_to_le_bytes,
    u32_from_le_bytes,
    u32_to_le_bytes,
};
use vstd::slice::slice_subrange;
use crate::checksum::{checksum, crc32_bzip2, differ_only_at, lemma_checksum_detects_one_byte};
use crate::varint::{
    DecodeError,
    decode_varint,
    encode_varint,
    lemma_parse_u64_roundtrip,
    parse_u64,
    parse_varint,
    spec_varint,
};
use crate::wire::PROTOCOL_VERSION;

verus! {

/// Bytes in a wireless address.
pub const ADDRESS_LEN: usize = 6;

/// Bytes in a checksum.
pub const CHECKSUM_LEN: usize = 4;

/// The most bytes the bus carries in one frame.
pub const BUS_FRAME_LEN: usize = 32;

/// Bytes in a command frame.
pub const COMMAND_FRAME_LEN: usize = 12;

/// Bytes in a response frame.
pub const RESPONSE_FRAME_LEN: usize = 11;

/// Tag of `HandshakeCommandKind::Handshake`.
pub const TAG_HANDSHAKE: u64 = 0;

/// What a command asks for.
#[derive(Clone, Copy, Debug, PartialEq, Eq)]
#[non_exhaustive]
pub enum HandshakeCommandKind {
    /// The sender gives its wireless address and asks for the receiver's.
    Handshake { peer_wireless_address: [u8; 6] },
}

/// What the master sends.
#[derive(Clone, Copy, Debug, PartialEq, Eq)]
pub struct HandshakeCommand {
    pub protocol_version: u8,
    pub kind: HandshakeCommandKind,
}

/// What the slave answers.
#[derive(Clone, Copy, Debug, PartialEq, Eq)]
pub struct HandshakeResponse {
    pub protocol_version: u8,
    pub remote_wireless_address: [u8; 6],
}

/// What a command holds.
pub struct CommandView {
    pub protocol_version: u8,
    pub peer_wireless_address: Seq<u8>,
}

/// What a response holds.
pub struct ResponseView {
    pub protocol_version: u8,
    pub remote_wireless_address: Seq<u8>,
}

impl View for HandshakeCommand {
    type V = CommandView;

    open spec fn view(&self) -> CommandView {
        match self.kind {
            HandshakeCommandKind::Handshake { peer_wireless_address } => CommandView {
                protocol_version: self.protocol_version,
                peer_wireless_address: peer_wireless_address@,
            },
        }
    }
}

impl View for HandshakeResponse {
    type V = ResponseView;

    open spec fn view(&self) -> ResponseView {
        ResponseView {
            protocol_version: self.protocol_version,
            remote_wireless_address: self.remote_wireless_address@,
        }
    }
}

/// Why a handshake frame was not acted on.
#[derive(Clone, Copy, Debug, PartialEq, Eq, Structural)]
pub enum PairingError {
    /// The frame could not be read, or its checksum did not verify.
    Frame(DecodeError),
    /// The frame is sound and speaks another protocol version.
    VersionMismatch { found: u8 },
}

/// A body with its checksum behind it.
pub open spec fn spec_frame(body: Seq<u8>) -> Seq<u8> {
    body + spec_u32_to_le_bytes(crc32_bzip2(body))
}

/// The body of a command.
pub open spec fn spec_command_body(command: CommandView) -> Seq<u8> {
    seq![command.protocol_version] + spec_varint(TAG_HANDSHAKE as nat)
        + command.peer_wireless_address
}

/// The body of a response.
pub open spec fn spec_response_body(response: ResponseView) -> Seq<u8> {
    seq![response.protocol_version] + response.remote_wireless_address
}

/// The frame of a command.
pub open spec fn spec_encode_command_frame(command: CommandView) -> Seq<u8> {
    spec_frame(spec_command_body(command))
}

/// The frame of a response.
pub open spec fn spec_encode_response_frame(response: ResponseView) -> Seq<u8> {
    spec_frame(spec_response_body(response))
}

/// The address at the front of `bytes`, and the bytes behind it.
pub open spec fn parse_address(bytes: Seq<u8>) -> Result<(Seq<u8>, Seq<u8>), DecodeError> {
    if bytes.len() < ADDRESS_LEN {
        Err(DecodeError::Truncated)
    } else {
        Ok((bytes.take(ADDRESS_LEN as int), bytes.skip(ADDRESS_LEN as int)))
    }
}

/// The command body at the front of `bytes`, and the bytes behind it.
pub open spec fn parse_command_body(bytes: Seq<u8>) -> Result<(CommandView, Seq<u8>), DecodeError> {
    if bytes.len() == 0 {
        Err(DecodeError::Truncated)
    } else {
        match parse_u64(bytes.skip(1)) {
            Ok((tag, rest)) => if tag == TAG_HANDSHAKE {
                match parse_address(rest) {
                    Ok((address, behind)) => Ok(
                        (
                            CommandView {
                                protocol_version: bytes[0],
                                peer_wireless_address: address,
                            },
                            behind,
                        ),
                    ),
                    Err(e) => Err(e),
                }
            } else {
                Err(DecodeError::UnknownTag)
            },
            Err(e) => Err(e),
        }
    }
}

/// The response body at the front of `bytes`, and the bytes behind it.
pub open spec fn parse_response_body(bytes: Seq<u8>) -> Result<
    (ResponseView, Seq<u8>),
    DecodeError,
> {
    if bytes.len() == 0 {
        Err(DecodeError::Truncated)
    } else {
        match parse_address(bytes.skip(1)) {
            Ok((address, behind)) => Ok(
                (
                    ResponseView { protocol_version: bytes[0], remote_wireless_address: address },
                    behind,
                ),
            ),
            Err(e) => Err(e),
        }
    }
}

/// Whether the four bytes at `body_len` are the checksum of the bytes before
/// them.
pub open spec fn spec_verify_trailer(bytes: Seq<u8>, body_len: int) -> Result<(), DecodeError> {
    if bytes.len() - body_len < CHECKSUM_LEN {
        Err(DecodeError::Truncated)
    } else if spec_u32_from_le_bytes(bytes.subrange(body_len, body_len + CHECKSUM_LEN))
        == crc32_bzip2(bytes.take(body_len)) {
        Ok(())
    } else {
        Err(DecodeError::BadChecksum)
    }
}

/// The command in the frame at the front of `bytes`: its body is read first,
/// then its checksum is verified. Bytes behind the frame are not looked at.
pub open spec fn spec_decode_command_frame(bytes: Seq<u8>) -> Result<CommandView, DecodeError> {
    match parse_command_body(bytes) {
        Ok((command, rest)) => match spec_verify_trailer(bytes, bytes.len() - rest.len()) {
            Ok(_) => Ok(command),
            Err(e) => Err(e),
        },
        Err(e) => Err(e),
    }
}

/// The response in the frame at the front of `bytes`.
pub open spec fn spec_decode_response_frame(bytes: Seq<u8>) -> Result<ResponseView, DecodeError> {
    match parse_response_body(bytes) {
        Ok((response, rest)) => match spec_verify_trailer(bytes, bytes.len() - rest.len()) {
            Ok(_) => Ok(response),
            Err(e) => Err(e),
        },
        Err(e) => Err(e),
    }
}

fn push_address(address: &[u8; 6], out: &mut Vec<u8>)
    ensures
        final(out)@ == old(out)@ + address@,
{
    let mut i: usize = 0;
    while i < ADDRESS_LEN
        invariant
            i <= ADDRESS_LEN,
            out@ == old(out)@ + address@.take(i as int),
        decreases ADDRESS_LEN - i,
    {
        out.push(address[i]);
        i += 1;
        assert(out@ =~= old(out)@ + address@.take(i as int));
    }
    assert(address@.take(ADDRESS_LEN as int) =~= address@);
}

fn push_checksum(out: &mut Vec<u8>)
    ensures
        final(out)@ == spec_frame(old(out)@),
        final(out)@.len() == old(out)@.len() + CHECKSUM_LEN,
{
    let sum: u32 = checksum(out.as_slice());
    let trailer: Vec<u8> = u32_to_le_bytes(sum);
    let mut i: usize = 0;
    while i < CHECKSUM_LEN
        invariant
            i <= CHECKSUM_LEN,
            trailer@.len() == CHECKSUM_LEN,
            out@ == old(out)@ + trailer@.take(i as int),
        decreases CHECKSUM_LEN - i,
    {
        out.push(trailer[i]);
        i += 1;
        assert(out@ =~= old(out)@ + trailer@.take(i as int));
    }
    assert(trailer@.take(CHECKSUM_LEN as int) =~= trailer@);
}

fn read_address(bytes: &[u8], at: usize) -> (result: Result<([u8; 6], usize), DecodeError>)
    requires
        at <= bytes@.len(),
    ensures
        match parse_address(bytes@.skip(at as int)) {
            Ok((address, rest)) => result matches Ok((a, next)) && a@ == address && next == at
                + ADDRESS_LEN && next <= bytes@.len() && rest == bytes@.skip(next as int),
            Err(e) => result matches Err(x) && x == e,
        },
{
    if bytes.len() - at < ADDRESS_LEN {
        return Err(DecodeError::Truncated);
    }
    let address: [u8; 6] = [
        bytes[at],
        bytes[at + 1],
        bytes[at + 2],
        bytes[at + 3],
        bytes[at + 4],
        bytes[at + 5],
    ];
    assert(address@ =~= bytes@.skip(at as int).take(ADDRESS_LEN as int));
    assert(bytes@.skip(at as int).skip(ADDRESS_LEN as int) =~= bytes@.skip(at + ADDRESS_LEN));
    Ok((address, at + ADDRESS_LEN))
}

fn verify_trailer(bytes: &[u8], body_len: usize) -> (result: Result<(), DecodeError>)
    requires
        body_len <= bytes@.len(),
    ensures
        result == spec_verify_trailer(bytes@, body_len as int),
{
    if bytes.len() - body_len < CHECKSUM_LEN {
        return Err(DecodeError::Truncated);
    }
    let stored: u32 = u32_from_le_bytes(slice_subrange(bytes, body_len, body_len + CHECKSUM_LEN));
    let body = slice_subrange(bytes, 0, body_len);
    assert(body@ =~= bytes@.take(body_len as int));
    if stored == checksum(body) {
        Ok(())
    } else {
        Err(DecodeError::BadChecksum)
    }
}

/// The frame of `command`.
pub fn encode_command_frame(command: &HandshakeCommand) -> (bytes: Vec<u8>)
    ensures
        bytes@ == spec_encode_command_frame(command@),
        bytes@.len() == COMMAND_FRAME_LEN,
{
    let mut out: Vec<u8> = Vec::new();
    out.push(command.protocol_version);
    encode_varint(TAG_HANDSHAKE, &mut out);
    match &command.kind {
        HandshakeCommandKind::Handshake { peer_wireless_address } => {
            push_address(peer_wireless_address, &mut out);
        },
    }
    assert(out@ =~= spec_command_body(command@));
    push_checksum(&mut out);
    out
}

/// The frame of `response`.
pub fn encode_response_frame(response: &HandshakeResponse) -> (bytes: Vec<u8>)
    ensures
        bytes@ == spec_encode_response_frame(response@),
        bytes@.len() == RESPONSE_FRAME_LEN,
{
    let mut out: Vec<u8> = Vec::new();
    out.push(response.protocol_version);
    push_address(&response.remote_wireless_address, &mut out);
    assert(out@ =~= spec_response_body(response@));
    push_checksum(&mut out);
    out
}

/// Reads the command frame at the front of `bytes`. The command is handed
/// out only where the body can be read and the checksum behind it verifies.
pub fn decode_command_frame(bytes: &[u8]) -> (result: Result<HandshakeCommand, DecodeError>)
    ensures
        match spec_decode_command_frame(bytes@) {
            Ok(command) => result matches Ok(c) && c@ == command,
            Err(e) => result matches Err(x) && x == e,
        },
{
    if bytes.len() == 0 {
        return Err(DecodeError::Truncated);
    }
    let protocol_version: u8 = bytes[0];
    let (tag, next) = match decode_varint(bytes, 1) {
        Ok(read) => read,
        Err(e) => {
            return Err(e);
        },
    };
    if tag != TAG_HANDSHAKE {
        return Err(DecodeError::UnknownTag);
    }
    let (peer_wireless_address, body_len) = match read_address(bytes, next) {
        Ok(read) => read,
        Err(e) => {
            return Err(e);
        },
    };
    match verify_trailer(bytes, body_len) {
        Ok(_) => Ok(
            HandshakeCommand {
                protocol_version,
                kind: HandshakeCommandKind::Handshake { peer_wireless_address },
            },
        ),
        Err(e) => Err(e),
    }
}

/// Reads the response frame at the front of `bytes`. The response is handed
/// out only where the body can be read and the checksum behind it verifies.
pub fn decode_response_frame(bytes: &[u8]) -> (result: Result<HandshakeResponse, DecodeError>)
    ensures
        match spec_decode_response_frame(bytes@) {
            Ok(response) => result matches Ok(r) && r@ == response,
            Err(e) => result matches Err(x) && x == e,
        },
{
    if bytes.len() == 0 {
        return Err(DecodeError::Truncated);
    }
    let protocol_version: u8 = bytes[0];
    let (remote_wireless_address, body_len) = match read_address(bytes, 1) {
        Ok(read) => read,
        Err(e) => {
            return Err(e);
        },
    };
    match verify_trailer(bytes, body_len) {
        Ok(_) => Ok(HandshakeResponse { protocol_version, remote_wireless_address }),
        Err(e) => Err(e),
    }
}

/// The command with which a master that speaks this protocol version gives
/// its address.
pub fn handshake_command(own_wireless_address: [u8; 6]) -> (command: HandshakeCommand)
    ensures
        command@ == (CommandView {
            protocol_version: PROTOCOL_VERSION,
            peer_wireless_address: own_wireless_address@,
        }),
{
    HandshakeCommand {
        protocol_version: PROTOCOL_VERSION,
        kind: HandshakeCommandKind::Handshake { peer_wireless_address: own_wireless_address },
    }
}

/// What the slave makes of a command: the master's address and the response
/// to send, where the command speaks this protocol version.
pub open spec fn spec_answer(command: CommandView, own_wireless_address: Seq<u8>) -> Result<
    (Seq<u8>, Seq<u8>),
    PairingError,
> {
    if command.protocol_version == PROTOCOL_VERSION {
        Ok(
            (
                command.peer_wireless_address,
                spec_encode_response_frame(
                    ResponseView {
                        protocol_version: PROTOCOL_VERSION,
                        remote_wireless_address: own_wireless_address,
                    },
                ),
            ),
        )
    } else {
        Err(PairingError::VersionMismatch { found: command.protocol_version })
    }
}

/// The slave's side of the handshake. Where the frame holds a sound command
/// of this protocol version, gives the master's address and the response
/// frame to send back. A frame that cannot be read or whose checksum fails is
/// a frame error; a sound frame of another version is a version mismatch.
pub fn answer_command(frame: &[u8], own_wireless_address: [u8; 6]) -> (result: Result<
    ([u8; 6], Vec<u8>),
    PairingError,
>)
    ensures
        match spec_decode_command_frame(frame@) {
            Ok(command) => match spec_answer(command, own_wireless_address@) {
                Ok((peer, response)) => result matches Ok((p, r)) && p@ == peer && r@ == response,
                Err(e) => result matches Err(x) && x == e,
            },
            Err(e) => result matches Err(x) && x == PairingError::Frame(e),
        },
{
    let command = match decode_command_frame(frame) {
        Ok(command) => command,
        Err(e) => {
            return Err(PairingError::Frame(e));
        },
    };
    if command.protocol_version != PROTOCOL_VERSION {
        return Err(PairingError::VersionMismatch { found: command.protocol_version });
    }
    let response = HandshakeResponse {
        protocol_version: PROTOCOL_VERSION,
        remote_wireless_address: own_wireless_address,
    };
    match command.kind {
        HandshakeCommandKind::Handshake { peer_wireless_address } => Ok(
            (peer_wireless_address, encode_response_frame(&response)),
        ),
    }
}

/// The master's side of the handshake. Where the frame holds a sound
/// response of this protocol version, gives the slave's address.
pub fn accept_response(frame: &[u8]) -> (result: Result<[u8; 6], PairingError>)
    ensures
        match spec_decode_response_frame(frame@) {
            Ok(response) => if response.protocol_version == PROTOCOL_VERSION {
                result matches Ok(address) && address@ == response.remote_wireless_address
            } else {
                result matches Err(x) && x == (PairingError::VersionMismatch {
                    found: response.protocol_version,
                })
            },
            Err(e) => result matches Err(x) && x == PairingError::Frame(e),
        },
{
    let response = match decode_response_frame(frame) {
        Ok(response) => response,
        Err(e) => {
            return Err(PairingError::Frame(e));
        },
    };
    if response.protocol_version != PROTOCOL_VERSION {
        return Err(PairingError::VersionMismatch { found: response.protocol_version });
    }
    Ok(response.remote_wireless_address)
}

/// The trailer of a frame verifies, whatever lies behind the frame.
pub proof fn lemma_trailer_verifies(body: Seq<u8>, tail: Seq<u8>)
    ensures
        spec_verify_trailer(spec_frame(body) + tail, body.len() as int) == Ok::<(), DecodeError>(
            (),
        ),
{
    lemma_auto_spec_u32_to_from_le_bytes();
    let bytes = spec_frame(body) + tail;
    let trailer = spec_u32_to_le_bytes(crc32_bzip2(body));
    assert(bytes.subrange(body.len() as int, body.len() + CHECKSUM_LEN) =~= trailer);
    assert(bytes.take(body.len() as int) =~= body);
}

/// A frame whose body was changed in one byte does not verify.
pub proof fn lemma_trailer_detects_one_byte(
    body: Seq<u8>,
    changed: Seq<u8>,
    at: int,
    tail: Seq<u8>,
)
    requires
        differ_only_at(body, changed, at),
    ensures
        spec_verify_trailer(
            changed + spec_u32_to_le_bytes(crc32_bzip2(body)) + tail,
            body.len() as int,
        ) == Err::<(), DecodeError>(DecodeError::BadChecksum),
{
    lemma_auto_spec_u32_to_from_le_bytes();
    lemma_checksum_detects_one_byte(body, changed, at);
    let trailer = spec_u32_to_le_bytes(crc32_bzip2(body));
    let bytes = changed + trailer + tail;
    assert(bytes.subrange(body.len() as int, body.len() + CHECKSUM_LEN) =~= trailer);
    assert(bytes.take(body.len() as int) =~= changed);
}

/// A command frame decodes to its command, whatever lies behind it.
pub proof fn lemma_command_frame_roundtrip(command: CommandView, tail: Seq<u8>)
    requires
        command.peer_wireless_address.len() == ADDRESS_LEN,
    ensures
        spec_decode_command_frame(spec_encode_command_frame(command) + tail) == Ok::<
            CommandView,
            DecodeError,
        >(command),
{
    lemma_auto_spec_u32_to_from_le_bytes();
    let body = spec_command_body(command);
    let trailer = spec_u32_to_le_bytes(crc32_bzip2(body));
    let bytes = spec_frame(body) + tail;
    let addressed = command.peer_wireless_address + (trailer + tail);
    assert(bytes.skip(1) =~= spec_varint(TAG_HANDSHAKE as nat) + addressed);
    lemma_parse_u64_roundtrip(TAG_HANDSHAKE, addressed);
    assert(addressed.take(ADDRESS_LEN as int) =~= command.peer_wireless_address);
    assert(addressed.skip(ADDRESS_LEN as int) =~= trailer + tail);
    assert(bytes.len() - (trailer + tail).len() == body.len());
    lemma_trailer_verifies(body, tail);
}

/// A response frame decodes to its response, whatever lies behind it.
pub proof fn lemma_response_frame_roundtrip(response: ResponseView, tail: Seq<u8>)
    requires
        response.remote_wireless_address.len() == ADDRESS_LEN,
    ensures
        spec_decode_response_frame(spec_encode_response_frame(response) + tail) == Ok::<
            ResponseView,
            DecodeError,
        >(response),
{
    lemma_auto_spec_u32_to_from_le_bytes();
    let body = spec_response_body(response);
    let trailer = spec_u32_to_le_bytes(crc32_bzip2(body));
    let bytes = spec_frame(body) + tail;
    let addressed = response.remote_wireless_address + (trailer + tail);
    assert(bytes.skip(1) =~= addressed);
    assert(addressed.take(ADDRESS_LEN as int) =~= response.remote_wireless_address);
    assert(addressed.skip(ADDRESS_LEN as int) =~= trailer + tail);
    assert(bytes.len() - (trailer + tail).len() == body.len());
    lemma_trailer_verifies(body, tail);
}

/// An integer whose first byte has its top bit set is 128 or more.
pub proof fn lemma_long_varint_is_large(bytes: Seq<u8>, budget: nat)
    requires
        bytes.len() > 0,
        bytes[0] >= 128,
    ensures
        parse_varint(bytes, budget) matches Ok((value, _)) ==> value >= 128,
{
}

/// A command frame with one byte of its body changed is rejected, whatever
/// the byte is changed to and whatever lies behind the frame.
pub proof fn lemma_command_frame_rejects_change(
    command: CommandView,
    at: int,
    byte: u8,
    tail: Seq<u8>,
)
    requires
        command.peer_wireless_address.len() == ADDRESS_LEN,
        0 <= at < spec_command_body(command).len(),
        byte != spec_command_body(command)[at],
    ensures
        spec_decode_command_frame(spec_encode_command_frame(command).update(at, byte) + tail)
            is Err,
{
    lemma_auto_spec_u32_to_from_le_bytes();
    let body = spec_command_body(command);
    let trailer = spec_u32_to_le_bytes(crc32_bzip2(body));
    let changed = body.update(at, byte);
    let bytes = spec_frame(body).update(at, byte) + tail;
    assert(bytes =~= changed + trailer + tail);
    assert(spec_varint(TAG_HANDSHAKE as nat) =~= seq![0u8]);
    if at == 1 {
        let tagged = bytes.skip(1);
        assert(tagged[0] == byte);
        if byte >= 128 {
            lemma_long_varint_is_large(tagged, 10);
        }
    } else {
        let addressed = changed.skip(2) + (trailer + tail);
        assert(bytes.skip(1) =~= seq![0u8] + addressed);
        assert(seq![0u8] =~= spec_varint(TAG_HANDSHAKE as nat));
        lemma_parse_u64_roundtrip(TAG_HANDSHAKE, addressed);
        assert(addressed.skip(ADDRESS_LEN as int) =~= trailer + tail);
        assert(bytes.len() - (trailer + tail).len() == body.len());
        assert(differ_only_at(body, changed, at));
        lemma_trailer_detects_one_byte(body, changed, at, tail);
    }
}

/// A response frame with one byte of its body changed is rejected, whatever
/// the byte is changed to and whatever lies behind the frame.
pub proof fn lemma_response_frame_rejects_change(
    response: ResponseView,
    at: int,
    byte: u8,
    tail: Seq<u8>,
)
    requires
        response.remote_wireless_address.len() == ADDRESS_LEN,
        0 <= at < spec_response_body(response).len(),
        byte != spec_response_body(response)[at],
    ensures
        spec_decode_response_frame(spec_encode_response_frame(response).update(at, byte) + tail)
            is Err,
{
    lemma_auto_spec_u32_to_from_le_bytes();
    let body = spec_response_body(response);
    let trailer = spec_u32_to_le_bytes(crc32_bzip2(body));
    let changed = body.update(at, byte);
    let bytes = spec_frame(body).update(at, byte) + tail;
    assert(bytes =~= changed + trailer + tail);
    let addressed = changed.skip(1) + (trailer + tail);
    assert(bytes.skip(1) =~= addressed);
    assert(addressed.skip(ADDRESS_LEN as int) =~= trailer + tail);
    assert(bytes.len() - (trailer + tail).len() == body.len());
    assert(differ_only_at(body, changed, at));
    lemma_trailer_detects_one_byte(body, changed, at, tail);
}

} // verus!
