//! The marker bytes of the wire protocol and the fixed handshake payloads.

use vstd::prelude::*;

verus! {

/// Client message marker: handshake, ASCII 'a'.
pub const CLIENT_MSG_TYPE_HANDSHAKE: u8 = 97;

/// Client message marker: query, ASCII 'q'.
pub const CLIENT_MSG_TYPE_QUERY: u8 = 113;

/// Client message marker: disconnect, ASCII 'd'.
pub const CLIENT_MSG_TYPE_DISCONNECT: u8 = 100;

/// Server message marker: handshake, ASCII 'b'.
pub const SERVER_MSG_TYPE_HANDSHAKE: u8 = 98;

/// Server message marker: ready for the next query, ASCII 'x'.
pub const SERVER_MSG_TYPE_READY_FOR_QUERY: u8 = 120;

/// Server message marker: error, ASCII 'e'.
pub const SERVER_MSG_TYPE_ERROR: u8 = 101;

/// Server message marker: row description, ASCII 'r'.
pub const SERVER_MSG_TYPE_ROW_DESCRIPTION: u8 = 114;

/// Server message marker: data row, ASCII 'd'.
pub const SERVER_MSG_TYPE_DATA_ROW: u8 = 100;

/// Server message marker: insert result, ASCII 'i'.
pub const SERVER_MSG_TYPE_INSERT_RESULT: u8 = 105;

/// Value type tag: null, ASCII 'n'.
pub const TYPE_BYTE_NULL: u8 = 110;

/// Value type tag: 32-bit signed integer, ASCII 'i'.
pub const TYPE_BYTE_INTEGER: u8 = 105;

/// Value type tag: varchar, ASCII 'v'.
pub const TYPE_BYTE_VARCHAR: u8 = 118;

pub fn client_handshake_payload() -> (r: &'static str)
    ensures
        r@ == "hello microbat"@,
{
    "hello microbat"
}

pub fn client_disconnect_payload() -> (r: &'static str)
    ensures
        r@ == "bye and so on"@,
{
    "bye and so on"
}

pub fn server_handshake_payload() -> (r: &'static str)
    ensures
        r@ == "hello client"@,
{
    "hello client"
}

pub fn server_ready_payload() -> (r: &'static str)
    ensures
        r@ == "shoot"@,
{
    "shoot"
}

} // verus!
