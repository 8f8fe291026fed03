//! The addressing protocols.

use vstd::prelude::*;

verus! {

/// Protocol defines the addressing protocol used to derive data to an address.
#[derive(Clone, Copy, Debug, PartialEq, Eq, Structural, Hash)]
pub enum Protocol {
    /// ID protocol addressing.
    ID,
    /// SECP256K1 key addressing.
    Secp256k1,
    /// Actor protocol addressing.
    Actor,
    /// BLS key addressing.
    BLS,
    /// Delegated actor protocol addressing.
    Delegated,
}

impl Protocol {
    /// The byte that stands for the protocol in an encoded address.
    pub open spec fn byte(self) -> u8 {
        match self {
            Protocol::ID => 0,
            Protocol::Secp256k1 => 1,
            Protocol::Actor => 2,
            Protocol::BLS => 3,
            Protocol::Delegated => 4,
        }
    }

    /// The byte that stands for the protocol in an encoded address.
    pub fn to_byte(self) -> (b: u8)
        ensures
            b == self.byte(),
    {
        match self {
            Protocol::ID => 0,
            Protocol::Secp256k1 => 1,
            Protocol::Actor => 2,
            Protocol::BLS => 3,
            Protocol::Delegated => 4,
        }
    }

    /// The protocol that a byte of an encoded address stands for, if any.
    pub fn from_byte(b: u8) -> (p: Option<Protocol>)
        ensures
            match p {
                Some(protocol) => protocol.byte() == b,
                None => b > 4,
            },
    {
        match b {
            0 => Some(Protocol::ID),
            1 => Some(Protocol::Secp256k1),
            2 => Some(Protocol::Actor),
            3 => Some(Protocol::BLS),
            4 => Some(Protocol::Delegated),
            _ => None,
        }
    }
}

} // verus!
