//! Error reported when a wire frame cannot be read or decoded.

use vstd::prelude::*;

verus! {

/// A protocol-level failure: bad framing, an unknown type byte, a truncated
/// payload, invalid UTF-8, or an unexpected hangup.
#[derive(Debug)]
pub struct MicrobatProtocolError {
    pub msg: String,
}

impl MicrobatProtocolError {
    pub fn new(msg: &str) -> (r: Self)
        ensures
            r.msg@ == msg@,
    {
        MicrobatProtocolError { msg: msg.to_owned() }
    }
}

} // verus!
