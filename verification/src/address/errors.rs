//! What can be wrong with the bytes of an address.

use vstd::prelude::*;

verus! {

/// What is wrong with the bytes of an address.
#[derive(Clone, Copy, Debug, PartialEq, Eq, Structural)]
pub enum AddressError {
    /// The payload is not a well-formed number, or bytes follow it.
    InvalidPayload,
    /// The payload has the given length, which its protocol does not allow.
    InvalidPayloadLength(usize),
    /// A BLS public key of the given length, which is not `BLS_PUB_LEN`.
    InvalidBLSLength(usize),
}

} // verus!
