use fvm_shared::bigint::Sign;
use state_migration::address::Payload;
use state_migration::econ::TokenAmount;
use state_migration::message::vm_message::Message as UnsignedMessage;
use state_migration::message::{ChainMessage, Message, Signature, SignedMessage};

fn unsigned() -> UnsignedMessage {
    UnsignedMessage {
        version: 0,
        from: Payload::ID(1),
        to: Payload::ID(2),
        sequence: 3,
        value: TokenAmount::from_atto(5),
        method_num: 6,
        params: vec![7, 8],
        gas_limit: 9,
        gas_fee_cap: TokenAmount::from_atto(10),
        gas_premium: TokenAmount::from_atto(11),
    }
}

fn signed() -> SignedMessage {
    SignedMessage {
        message: unsigned(),
        signature: Signature { sig_type: 1, bytes: vec![0xde, 0xad] },
    }
}

fn both() -> [ChainMessage; 2] {
    [ChainMessage::Unsigned(unsigned()), ChainMessage::Signed(signed())]
}

#[test]
fn chain_message_carries_the_unsigned_message() {
    for message in both() {
        assert_eq!(message.message(), &unsigned());
    }
}

#[test]
fn chain_message_fields() {
    for message in both() {
        assert_eq!(message.from(), Payload::ID(1));
        assert_eq!(message.to(), Payload::ID(2));
        assert_eq!(message.sequence(), 3);
        assert_eq!(message.value(), TokenAmount::from_atto(5));
        assert_eq!(message.method_num(), 6);
        assert_eq!(message.params(), &vec![7u8, 8]);
        assert_eq!(message.gas_limit(), 9);
        assert_eq!(message.gas_fee_cap(), TokenAmount::from_atto(10));
        assert_eq!(message.gas_premium(), TokenAmount::from_atto(11));
    }
}

#[test]
fn chain_message_required_funds() {
    for message in both() {
        assert_eq!(message.required_funds(), TokenAmount::from_atto(95));
    }
}

#[test]
fn required_funds_beyond_sixty_four_bits() {
    let mut message = unsigned();
    message.gas_fee_cap = TokenAmount::from_parts(Sign::Plus, vec![0, 0, 16, 99, 45, 94, 199, 107, 5]);
    message.gas_limit = 1000;
    message.value = TokenAmount::from_atto(1);
    let expected =
        TokenAmount::from_parts(Sign::Plus, vec![1, 0, 128, 246, 74, 225, 199, 2, 45, 21]);
    assert_eq!(message.required_funds(), expected);
    assert_eq!(ChainMessage::Unsigned(message).required_funds(), expected);
}

#[test]
fn chain_message_setters() {
    for mut message in both() {
        let signature = match &message {
            ChainMessage::Signed(sm) => Some(sm.signature().clone()),
            ChainMessage::Unsigned(_) => None,
        };
        message.set_gas_limit(100);
        message.set_sequence(200);
        message.set_gas_fee_cap(TokenAmount::from_atto(300));
        message.set_gas_premium(TokenAmount::from_atto(400));
        let mut expected = unsigned();
        expected.gas_limit = 100;
        expected.sequence = 200;
        expected.gas_fee_cap = TokenAmount::from_atto(300);
        expected.gas_premium = TokenAmount::from_atto(400);
        assert_eq!(message.message(), &expected);
        assert_eq!(message.required_funds(), TokenAmount::from_atto(30005));
        match &message {
            ChainMessage::Signed(sm) => assert_eq!(Some(sm.signature().clone()), signature),
            ChainMessage::Unsigned(_) => assert_eq!(None, signature),
        }
    }
}

#[test]
fn signed_message_fields_are_those_of_its_message() {
    let mut message = signed();
    assert_eq!(message.message(), &unsigned());
    assert_eq!(message.sequence(), 3);
    assert_eq!(message.required_funds(), TokenAmount::from_atto(95));
    message.set_sequence(4);
    assert_eq!(message.sequence(), 4);
    assert_eq!(message.signature().bytes, vec![0xde, 0xad]);
}
