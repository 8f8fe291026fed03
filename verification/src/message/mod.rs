//! Messages: what an actor asks the chain to do.

pub mod chain_message;
pub mod signed_message;
pub mod vm_message;

use vstd::prelude::*;

use crate::address::Address;
use crate::econ::TokenAmount;

pub use chain_message::ChainMessage;
pub use signed_message::{Signature, SignedMessage};
pub use vm_message::{MessageView, MethodNum, RawBytes};

verus! {

/// What every kind of message offers: the fields of the message that it
/// carries, and the means to set those that a sender adjusts.
pub trait Message {
    /// The message carried, by what it says.
    spec fn body(&self) -> MessageView;

    /// Returns the from address of the message.
    fn from(&self) -> (r: Address)
        ensures
            r == self.body().from,
    ;

    /// Returns the destination address of the message.
    fn to(&self) -> (r: Address)
        ensures
            r == self.body().to,
    ;

    /// Returns the message sequence or nonce.
    fn sequence(&self) -> (r: u64)
        ensures
            r == self.body().sequence,
    ;

    /// Returns the amount sent in message.
    fn value(&self) -> (r: TokenAmount)
        ensures
            r@ == self.body().value,
    ;

    /// Returns the method number to be called.
    fn method_num(&self) -> (r: MethodNum)
        ensures
            r == self.body().method_num,
    ;

    /// Returns the encoded parameters for the method call.
    fn params(&self) -> (r: &RawBytes)
        ensures
            r@ == self.body().params,
    ;

    /// Returns the gas limit for the message.
    fn gas_limit(&self) -> (r: u64)
        ensures
            r == self.body().gas_limit,
    ;

    /// Sets the gas limit for the message.
    fn set_gas_limit(&mut self, amount: u64)
        ensures
            final(self).body() == (MessageView { gas_limit: amount, ..old(self).body() }),
    ;

    /// Sets a new sequence to the message.
    fn set_sequence(&mut self, sequence: u64)
        ensures
            final(self).body() == (MessageView { sequence, ..old(self).body() }),
    ;

    /// Returns the required funds for the message: the gas fee cap times the
    /// gas limit, plus the value sent.
    fn required_funds(&self) -> (r: TokenAmount)
        ensures
            r@ == self.body().gas_fee_cap * self.body().gas_limit + self.body().value,
    ;

    /// Gets gas fee cap for the message.
    fn gas_fee_cap(&self) -> (r: TokenAmount)
        ensures
            r@ == self.body().gas_fee_cap,
    ;

    /// Gets gas premium for the message.
    fn gas_premium(&self) -> (r: TokenAmount)
        ensures
            r@ == self.body().gas_premium,
    ;

    /// Sets the gas fee cap.
    fn set_gas_fee_cap(&mut self, cap: TokenAmount)
        ensures
            final(self).body() == (MessageView { gas_fee_cap: cap@, ..old(self).body() }),
    ;

    /// Sets the gas premium.
    fn set_gas_premium(&mut self, prem: TokenAmount)
        ensures
            final(self).body() == (MessageView { gas_premium: prem@, ..old(self).body() }),
    ;
}

} // verus!
