//! A message together with the signature of its sender.

use vstd::prelude::*;

use super::vm_message::{Message, MessageView, MethodNum, RawBytes};
use super::Message as MessageTrait;
use crate::address::Address;
use crate::econ::TokenAmount;

verus! {

/// A signature: the kind of key that made it, and its bytes.
#[derive(Clone, Debug, PartialEq, Eq)]
pub struct Signature {
    pub sig_type: u8,
    pub bytes: Vec<u8>,
}

/// Represents a wrapped message with signature bytes.
#[derive(Clone, Debug, PartialEq, Eq)]
pub struct SignedMessage {
    pub message: Message,
    pub signature: Signature,
}

impl SignedMessage {
    /// Returns reference to the unsigned message.
    pub fn message(&self) -> (r: &Message)
        ensures
            *r == self.message,
    {
        &self.message
    }

    /// Returns signature of the signed message.
    pub fn signature(&self) -> (r: &Signature)
        ensures
            *r == self.signature,
    {
        &self.signature
    }
}

impl MessageTrait for SignedMessage {
    open spec fn body(&self) -> MessageView {
        self.message@
    }

    fn from(&self) -> (r: Address) {
        self.message.from
    }

    fn to(&self) -> (r: Address) {
        self.message.to
    }

    fn sequence(&self) -> (r: u64) {
        self.message.sequence
    }

    fn value(&self) -> (r: TokenAmount) {
        self.message.value.clone()
    }

    fn method_num(&self) -> (r: MethodNum) {
        self.message.method_num
    }

    fn params(&self) -> (r: &RawBytes) {
        &self.message.params
    }

    fn gas_limit(&self) -> (r: u64) {
        self.message.gas_limit
    }

    fn set_gas_limit(&mut self, amount: u64)
        ensures
            final(self).signature == old(self).signature,
    {
        self.message.gas_limit = amount;
    }

    fn set_sequence(&mut self, sequence: u64)
        ensures
            final(self).signature == old(self).signature,
    {
        self.message.sequence = sequence;
    }

    fn required_funds(&self) -> (r: TokenAmount) {
        self.message.required_funds()
    }

    fn gas_fee_cap(&self) -> (r: TokenAmount) {
        self.message.gas_fee_cap.clone()
    }

    fn gas_premium(&self) -> (r: TokenAmount) {
        self.message.gas_premium.clone()
    }

    fn set_gas_fee_cap(&mut self, cap: TokenAmount)
        ensures
            final(self).signature == old(self).signature,
    {
        self.message.gas_fee_cap = cap;
    }

    fn set_gas_premium(&mut self, prem: TokenAmount)
        ensures
            final(self).signature == old(self).signature,
    {
        self.message.gas_premium = prem;
    }
}

} // verus!
