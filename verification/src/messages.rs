//! The message framing shared by client and server: every message is sent as
//! one frame, `[type byte][length, 4 bytes little-endian][payload]`.

use vstd::prelude::*;
use vstd::utf8::encode_utf8;

use crate::protocol_error::MicrobatProtocolError;
use crate::wire::{spec_frame, spec_len_field, spec_u32_of_le, u32_from_le_bytes};

verus! {

/// A message that can be put on the wire as one frame.
///
/// `as_bytes` returns the whole frame: the message's type byte, the
/// little-endian length of the payload, and the payload itself.
pub trait MicrobatMessage {
    /// The type byte that marks this message on the wire.
    spec fn spec_message_type(&self) -> u8;

    /// The payload bytes of this message.
    spec fn spec_payload(&self) -> Seq<u8>;

    fn as_bytes(&self) -> (r: Vec<u8>)
        ensures
            r@ == spec_frame(self.spec_message_type(), self.spec_payload()),
    ;
}

/// A length-prefixed string: the little-endian byte length of its UTF-8
/// encoding, then the encoding itself.
pub open spec fn spec_str_with_length(s: Seq<char>) -> Seq<u8> {
    spec_len_field(encode_utf8(s).len() as int) + encode_utf8(s)
}

pub fn str_with_length(payload: &str) -> (r: Vec<u8>)
    ensures
        r@ == spec_str_with_length(payload@),
{
    let mut bytes = payload.as_bytes_vec();
    let mut r = crate::wire::len_field(bytes.len());
    r.append(&mut bytes);
    proof {
        assert(r@ =~= spec_str_with_length(payload@));
    }
    r
}

/// Reads a frame header: a null type byte means the peer hung up, any other
/// byte is the message type, and the four length bytes give the payload
/// length.
pub fn frame_header(message_type: u8, l0: u8, l1: u8, l2: u8, l3: u8) -> (r: Result<
    (u8, u32),
    MicrobatProtocolError,
>)
    ensures
        (match r {
            Ok((t, len)) => message_type != 0 && t == message_type && len == spec_u32_of_le(
                l0,
                l1,
                l2,
                l3,
            ),
            Err(e) => message_type == 0 && e.msg@ == "unexpected hangup"@,
        }),
{
    if message_type == 0 {
        return Err(MicrobatProtocolError::new("unexpected hangup"));
    }
    Ok((message_type, u32_from_le_bytes(l0, l1, l2, l3)))
}

} // verus!
