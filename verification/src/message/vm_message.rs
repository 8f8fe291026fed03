//! The unsigned message: all that a state transition needs.

use vstd::prelude::*;

use super::Message as MessageTrait;
use crate::address::Address;
use crate::econ::TokenAmount;

verus! {

/// The number of a method of an actor.
pub type MethodNum = u64;

/// Encoded bytes, as they are.
pub type RawBytes = Vec<u8>;

/// What a message says.
pub struct MessageView {
    pub version: u64,
    pub from: Address,
    pub to: Address,
    pub sequence: u64,
    pub value: int,
    pub method_num: MethodNum,
    pub params: Seq<u8>,
    pub gas_limit: u64,
    pub gas_fee_cap: int,
    pub gas_premium: int,
}

/// Default Unsigned VM message type which includes all data needed for a state
/// transition.
#[derive(Clone, Debug, PartialEq, Eq)]
pub struct Message {
    pub version: u64,
    pub from: Address,
    pub to: Address,
    pub sequence: u64,
    pub value: TokenAmount,
    pub method_num: MethodNum,
    pub params: RawBytes,
    pub gas_limit: u64,
    pub gas_fee_cap: TokenAmount,
    pub gas_premium: TokenAmount,
}

impl View for Message {
    type V = MessageView;

    open spec fn view(&self) -> MessageView {
        MessageView {
            version: self.version,
            from: self.from,
            to: self.to,
            sequence: self.sequence,
            value: self.value@,
            method_num: self.method_num,
            params: self.params@,
            gas_limit: self.gas_limit,
            gas_fee_cap: self.gas_fee_cap@,
            gas_premium: self.gas_premium@,
        }
    }
}

impl MessageTrait for Message {
    open spec fn body(&self) -> MessageView {
        self@
    }

    fn from(&self) -> (r: Address) {
        self.from
    }

    fn to(&self) -> (r: Address) {
        self.to
    }

    fn sequence(&self) -> (r: u64) {
        self.sequence
    }

    fn value(&self) -> (r: TokenAmount) {
        self.value.clone()
    }

    fn method_num(&self) -> (r: MethodNum) {
        self.method_num
    }

    fn params(&self) -> (r: &RawBytes) {
        &self.params
    }

    fn gas_limit(&self) -> (r: u64) {
        self.gas_limit
    }

    fn set_gas_limit(&mut self, amount: u64) {
        self.gas_limit = amount;
    }

    fn set_sequence(&mut self, sequence: u64) {
        self.sequence = sequence;
    }

    fn required_funds(&self) -> (r: TokenAmount) {
        self.gas_fee_cap.times(self.gas_limit).plus(&self.value)
    }

    fn gas_fee_cap(&self) -> (r: TokenAmount) {
        self.gas_fee_cap.clone()
    }

    fn gas_premium(&self) -> (r: TokenAmount) {
        self.gas_premium.clone()
    }

    fn set_gas_fee_cap(&mut self, cap: TokenAmount) {
        self.gas_fee_cap = cap;
    }

    fn set_gas_premium(&mut self, prem: TokenAmount) {
        self.gas_premium = prem;
    }
}

} // verus!
