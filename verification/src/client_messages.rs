//! The messages a client can send: a handshake, a query, and a disconnect.

use vstd::prelude::*;
use vstd::utf8::{decode_utf8, encode_utf8, valid_utf8};

use crate::messages::{spec_str_with_length, str_with_length, MicrobatMessage};
use crate::protocol_error::MicrobatProtocolError;
use crate::static_values::{
    client_disconnect_payload, client_handshake_payload, CLIENT_MSG_TYPE_DISCONNECT,
    CLIENT_MSG_TYPE_HANDSHAKE, CLIENT_MSG_TYPE_QUERY,
};
use crate::text::string_from_utf8;
use crate::wire::{lemma_frame_boundaries, spec_frame, spec_u32_of_le};

verus! {

/// A message from the client to the server.
#[derive(Debug, PartialEq)]
pub enum MicrobatClientMessage {
    Handshake,
    Query(String),
    Disconnect,
}

/// Equality of client messages up to string contents.
pub open spec fn client_message_eq(a: MicrobatClientMessage, b: MicrobatClientMessage) -> bool {
    match (a, b) {
        (MicrobatClientMessage::Handshake, MicrobatClientMessage::Handshake) => true,
        (MicrobatClientMessage::Disconnect, MicrobatClientMessage::Disconnect) => true,
        (MicrobatClientMessage::Query(x), MicrobatClientMessage::Query(y)) => x@ == y@,
        _ => false,
    }
}

impl MicrobatMessage for MicrobatClientMessage {
    open spec fn spec_message_type(&self) -> u8 {
        match self {
            MicrobatClientMessage::Handshake => CLIENT_MSG_TYPE_HANDSHAKE,
            MicrobatClientMessage::Query(_) => CLIENT_MSG_TYPE_QUERY,
            MicrobatClientMessage::Disconnect => CLIENT_MSG_TYPE_DISCONNECT,
        }
    }

    open spec fn spec_payload(&self) -> Seq<u8> {
        match self {
            MicrobatClientMessage::Handshake => encode_utf8("hello microbat"@),
            MicrobatClientMessage::Query(query) => encode_utf8(query@),
            MicrobatClientMessage::Disconnect => encode_utf8("bye and so on"@),
        }
    }

    fn as_bytes(&self) -> (r: Vec<u8>) {
        match self {
            MicrobatClientMessage::Handshake => {
                let mut bytes: Vec<u8> = Vec::new();
                bytes.push(CLIENT_MSG_TYPE_HANDSHAKE);
                let mut rest = str_with_length(client_handshake_payload());
                bytes.append(&mut rest);
                proof {
                    assert(bytes@ =~= crate::wire::spec_frame(
                        self.spec_message_type(),
                        self.spec_payload(),
                    ));
                }
                bytes
            },
            MicrobatClientMessage::Disconnect => {
                let mut bytes: Vec<u8> = Vec::new();
                bytes.push(CLIENT_MSG_TYPE_DISCONNECT);
                let mut rest = str_with_length(client_disconnect_payload());
                bytes.append(&mut rest);
                proof {
                    assert(bytes@ =~= crate::wire::spec_frame(
                        self.spec_message_type(),
                        self.spec_payload(),
                    ));
                }
                bytes
            },
            MicrobatClientMessage::Query(query) => {
                let mut bytes: Vec<u8> = Vec::new();
                bytes.push(CLIENT_MSG_TYPE_QUERY);
                let mut rest = str_with_length(query.as_str());
                bytes.append(&mut rest);
                proof {
                    assert(bytes@ =~= crate::wire::spec_frame(
                        self.spec_message_type(),
                        self.spec_payload(),
                    ));
                }
                bytes
            },
        }
    }
}

/// True when a client frame's type byte, declared length and payload can be
/// decoded into a message.
pub open spec fn spec_client_decodable(message_type: u8, length: int, bytes: Seq<u8>) -> bool {
    &&& length == bytes.len()
    &&& {
        ||| message_type == CLIENT_MSG_TYPE_HANDSHAKE
        ||| message_type == CLIENT_MSG_TYPE_DISCONNECT
        ||| (message_type == CLIENT_MSG_TYPE_QUERY && valid_utf8(bytes))
    }
}

/// What a decoded client message says about the frame it came from.
pub open spec fn spec_client_decoded(
    message_type: u8,
    bytes: Seq<u8>,
    m: MicrobatClientMessage,
) -> bool {
    match m {
        MicrobatClientMessage::Handshake => message_type == CLIENT_MSG_TYPE_HANDSHAKE,
        MicrobatClientMessage::Disconnect => message_type == CLIENT_MSG_TYPE_DISCONNECT,
        MicrobatClientMessage::Query(q) => message_type == CLIENT_MSG_TYPE_QUERY && q@
            == decode_utf8(bytes),
    }
}

/// Decodes a client message from its type byte, declared length and payload.
/// The declared length must equal the payload size.
pub fn deserialize_client_message(message_type: u8, length: usize, bytes: &[u8]) -> (r: Result<
    MicrobatClientMessage,
    MicrobatProtocolError,
>)
    ensures
        (match r {
            Ok(m) => spec_client_decodable(message_type, length as int, bytes@)
                && spec_client_decoded(message_type, bytes@, m),
            Err(_) => !spec_client_decodable(message_type, length as int, bytes@),
        }),
{
    if length != bytes.len() {
        return Err(MicrobatProtocolError::new(
            "Byte mismatch error. Expected length does not match received bytes",
        ));
    }
    if message_type == CLIENT_MSG_TYPE_HANDSHAKE {
        Ok(MicrobatClientMessage::Handshake)
    } else if message_type == CLIENT_MSG_TYPE_DISCONNECT {
        Ok(MicrobatClientMessage::Disconnect)
    } else if message_type == CLIENT_MSG_TYPE_QUERY {
        let mut payload: Vec<u8> = Vec::new();
        let mut i: usize = 0;
        while i < bytes.len()
            invariant
                i <= bytes@.len(),
                payload@ == bytes@.take(i as int),
            decreases bytes@.len() - i,
        {
            payload.push(bytes[i]);
            i = i + 1;
            proof {
                assert(payload@ =~= bytes@.take(i as int));
            }
        }
        proof {
            assert(payload@ =~= bytes@);
        }
        match string_from_utf8(payload) {
            Some(query) => Ok(MicrobatClientMessage::Query(query)),
            None => Err(MicrobatProtocolError::new("Query payload is not valid UTF-8")),
        }
    } else {
        Err(MicrobatProtocolError::new("Received unknown message type"))
    }
}

/// Any client message round-trips over the wire: its own type byte and
/// payload decode, and whatever decodes from them is the message itself.
pub proof fn lemma_client_message_round_trip(m: MicrobatClientMessage)
    ensures
        spec_client_decodable(m.spec_message_type(), m.spec_payload().len() as int, m.spec_payload()),
        forall|m2: MicrobatClientMessage|
            spec_client_decoded(m.spec_message_type(), m.spec_payload(), m2) ==> client_message_eq(
                m2,
                m,
            ),
{
    match m {
        MicrobatClientMessage::Handshake => {},
        MicrobatClientMessage::Disconnect => {},
        MicrobatClientMessage::Query(q) => {
            vstd::utf8::encode_utf8_valid_utf8(q@);
            vstd::utf8::encode_utf8_decode_utf8(q@);
        },
    }
}

/// Any client message round-trips over its whole wire frame: in the frame
/// `as_bytes` emits, the length field counts exactly the payload bytes, the
/// payload decodes, and whatever decodes from it is the message itself. The
/// size bound is the machine limit of the four-byte length field.
pub proof fn lemma_client_wire_round_trip(m: MicrobatClientMessage)
    requires
        m.spec_payload().len() < 0x100000000,
    ensures
        ({
            let f = spec_frame(m.spec_message_type(), m.spec_payload());
            &&& f.len() == 5 + m.spec_payload().len()
            &&& f[0] == m.spec_message_type()
            &&& spec_u32_of_le(f[1], f[2], f[3], f[4]) == m.spec_payload().len()
            &&& f.subrange(5, f.len() as int) == m.spec_payload()
            &&& spec_client_decodable(
                f[0],
                m.spec_payload().len() as int,
                f.subrange(5, f.len() as int),
            )
            &&& forall|m2: MicrobatClientMessage|
                spec_client_decoded(f[0], f.subrange(5, f.len() as int), m2)
                    ==> client_message_eq(m2, m)
        }),
{
    lemma_frame_boundaries(m.spec_message_type(), m.spec_payload());
    lemma_client_message_round_trip(m);
}

} // verus!
