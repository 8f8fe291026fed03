//! Address payloads: the protocol-tagged bytes that name an actor.

pub mod errors;
pub mod protocol;
pub mod varint;
pub mod payload;

use vstd::prelude::*;

pub use errors::AddressError;
pub use payload::Payload;
pub use protocol::Protocol;

verus! {

/// An actor's numeric identifier.
pub type ActorID = u64;

/// The stable identifier of an actor: the data of its address.
pub type Address = Payload;

/// Length of the hash that forms a Secp256k1 or Actor payload.
pub const PAYLOAD_HASH_LEN: usize = 20;

/// Length of a BLS public key.
pub const BLS_PUB_LEN: usize = 48;

/// Greatest length of the subaddress of a delegated address.
pub const MAX_SUBADDRESS_LEN: usize = 54;

/// What `from_leb_bytes` yields on `bz`: the decoded number when `bz` is one
/// accepted varint and nothing else.
pub open spec fn leb_decoding(bz: Seq<u8>) -> Result<u64, AddressError> {
    if varint::varint_accepted(bz) && varint::varint_rest(bz).len() == 0 {
        Ok(varint::varint_value(bz))
    } else {
        Err(AddressError::InvalidPayload)
    }
}

/// Writes `id` in LEB128 form. Never fails.
pub fn to_leb_bytes(id: u64) -> (r: Result<Vec<u8>, AddressError>)
    ensures
        r matches Ok(bytes) && bytes@ == varint::varint_encoding(id as nat),
{
    Ok(varint::encode_u64(id))
}

/// Reads a number from bytes that hold exactly one LEB128 number. Anything that
/// the decoder rejects, and any byte left over, is `InvalidPayload`.
pub fn from_leb_bytes(bz: &[u8]) -> (r: Result<u64, AddressError>)
    ensures
        r == leb_decoding(bz@),
{
    match varint::decode_u64(bz) {
        Ok((id, remaining)) => {
            if remaining.len() != 0 {
                return Err(AddressError::InvalidPayload);
            }
            Ok(id)
        },
        Err(_) => Err(AddressError::InvalidPayload),
    }
}

} // verus!
