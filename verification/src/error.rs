//! The error that decoding untrusted bytes can end in.

use vstd::prelude::*;

verus! {

/// Why the bytes of an inbound message could not be turned into a value.
#[derive(Clone, Copy, Debug, PartialEq, Eq, Structural)]
pub enum DecodeError {
    /// The bytes end before the value is complete.
    Truncated,
    /// The bytes do not follow the structure of the wire format.
    Malformed,
    /// The bytes hold something that the message type cannot take.
    Unsupported,
}

/// Why a call could not be served.
#[derive(Clone, Copy, Debug, PartialEq, Eq, Structural)]
pub enum CallError {
    /// The service has no method of the name that was called.
    Unimplemented,
    /// The request could not be decoded.
    Decode(DecodeError),
}

} // verus!
