//! Signed and unsigned messages under one type.

use vstd::prelude::*;

use super::signed_message::{Signature, SignedMessage};
use super::vm_message::{Message, MessageView, MethodNum, RawBytes};
use super::Message as MessageTrait;
use crate::address::Address;
use crate::econ::TokenAmount;

verus! {

/// `Enum` to encapsulate signed and unsigned messages. Useful when working with
/// both types.
#[derive(Clone, Debug, PartialEq, Eq)]
pub enum ChainMessage {
    Unsigned(Message),
    Signed(SignedMessage),
}

impl ChainMessage {
    /// The unsigned message that is carried, with or without a signature.
    pub open spec fn carried(&self) -> Message {
        match self {
            ChainMessage::Unsigned(m) => *m,
            ChainMessage::Signed(sm) => sm.message,
        }
    }

    /// The signature that the message carries, if it is signed.
    pub open spec fn signed_with(&self) -> Option<Signature> {
        match self {
            ChainMessage::Unsigned(_) => None,
            ChainMessage::Signed(sm) => Some(sm.signature),
        }
    }

    /// The unsigned message that is carried, with or without a signature.
    pub fn message(&self) -> (r: &Message)
        ensures
            *r == self.carried(),
    {
        match self {
            Self::Unsigned(m) => m,
            Self::Signed(sm) => sm.message(),
        }
    }
}

impl MessageTrait for ChainMessage {
    open spec fn body(&self) -> MessageView {
        self.carried()@
    }

    fn from(&self) -> (r: Address) {
        match self {
            Self::Signed(t) => t.from(),
            Self::Unsigned(t) => t.from,
        }
    }

    fn to(&self) -> (r: Address) {
        match self {
            Self::Signed(t) => t.to(),
            Self::Unsigned(t) => t.to,
        }
    }

    fn sequence(&self) -> (r: u64) {
        match self {
            Self::Signed(t) => t.sequence(),
            Self::Unsigned(t) => t.sequence,
        }
    }

    fn value(&self) -> (r: TokenAmount) {
        match self {
            Self::Signed(t) => t.value(),
            Self::Unsigned(t) => t.value.clone(),
        }
    }

    fn method_num(&self) -> (r: MethodNum) {
        match self {
            Self::Signed(t) => t.method_num(),
            Self::Unsigned(t) => t.method_num,
        }
    }

    fn params(&self) -> (r: &RawBytes) {
        match self {
            Self::Signed(t) => t.params(),
            Self::Unsigned(t) => t.params(),
        }
    }

    fn gas_limit(&self) -> (r: u64) {
        match self {
            Self::Signed(t) => t.gas_limit(),
            Self::Unsigned(t) => t.gas_limit(),
        }
    }

    fn set_gas_limit(&mut self, token_amount: u64)
        ensures
            final(self).signed_with() == old(self).signed_with(),
    {
        match self {
            Self::Signed(t) => t.set_gas_limit(token_amount),
            Self::Unsigned(t) => t.set_gas_limit(token_amount),
        }
    }

    fn set_sequence(&mut self, new_sequence: u64)
        ensures
            final(self).signed_with() == old(self).signed_with(),
    {
        match self {
            Self::Signed(t) => t.set_sequence(new_sequence),
            Self::Unsigned(t) => t.set_sequence(new_sequence),
        }
    }

    fn required_funds(&self) -> (r: TokenAmount) {
        match self {
            Self::Signed(t) => t.required_funds(),
            Self::Unsigned(t) => t.gas_fee_cap.times(t.gas_limit).plus(&t.value),
        }
    }

    fn gas_fee_cap(&self) -> (r: TokenAmount) {
        match self {
            Self::Signed(t) => t.gas_fee_cap(),
            Self::Unsigned(t) => t.gas_fee_cap.clone(),
        }
    }

    fn gas_premium(&self) -> (r: TokenAmount) {
        match self {
            Self::Signed(t) => t.gas_premium(),
            Self::Unsigned(t) => t.gas_premium.clone(),
        }
    }

    fn set_gas_fee_cap(&mut self, cap: TokenAmount)
        ensures
            final(self).signed_with() == old(self).signed_with(),
    {
        match self {
            Self::Signed(t) => t.set_gas_fee_cap(cap),
            Self::Unsigned(t) => t.set_gas_fee_cap(cap),
        }
    }

    fn set_gas_premium(&mut self, prem: TokenAmount)
        ensures
            final(self).signed_with() == old(self).signed_with(),
    {
        match self {
            Self::Signed(t) => t.set_gas_premium(prem),
            Self::Unsigned(t) => t.set_gas_premium(prem),
        }
    }
}

} // verus!
