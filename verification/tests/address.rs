use state_migration::address::payload::{BLSPublicKey, DelegatedAddress};
use state_migration::address::{
    from_leb_bytes, to_leb_bytes, AddressError, Payload, Protocol, BLS_PUB_LEN,
    MAX_SUBADDRESS_LEN, PAYLOAD_HASH_LEN,
};

#[test]
fn leb_bytes_of_small_numbers() {
    assert_eq!(to_leb_bytes(0), Ok(vec![0x00]));
    assert_eq!(to_leb_bytes(1), Ok(vec![0x01]));
    assert_eq!(to_leb_bytes(127), Ok(vec![0x7f]));
}

#[test]
fn leb_bytes_of_numbers_that_need_more_bytes() {
    assert_eq!(to_leb_bytes(128), Ok(vec![0x80, 0x01]));
    assert_eq!(to_leb_bytes(300), Ok(vec![0xac, 0x02]));
    assert_eq!(to_leb_bytes(16384), Ok(vec![0x80, 0x80, 0x01]));
    assert_eq!(to_leb_bytes(1234567), Ok(vec![0x87, 0xad, 0x4b]));
}

#[test]
fn leb_bytes_of_the_greatest_number() {
    assert_eq!(
        to_leb_bytes(u64::MAX),
        Ok(vec![0xff, 0xff, 0xff, 0xff, 0xff, 0xff, 0xff, 0xff, 0xff, 0x01])
    );
}

#[test]
fn leb_bytes_are_read_back() {
    for id in [0u64, 1, 127, 128, 255, 256, 300, 1 << 32, u64::MAX - 1, u64::MAX] {
        let bytes = to_leb_bytes(id).unwrap();
        assert_eq!(from_leb_bytes(&bytes), Ok(id));
    }
}

#[test]
fn leb_reading_refuses_what_is_no_number() {
    assert_eq!(from_leb_bytes(&[]), Err(AddressError::InvalidPayload));
    assert_eq!(from_leb_bytes(&[0x80]), Err(AddressError::InvalidPayload));
    assert_eq!(from_leb_bytes(&[0xff, 0xff]), Err(AddressError::InvalidPayload));
}

#[test]
fn leb_reading_refuses_bytes_after_the_number() {
    assert_eq!(from_leb_bytes(&[0x01, 0x00]), Err(AddressError::InvalidPayload));
    assert_eq!(from_leb_bytes(&[0xac, 0x02, 0x07]), Err(AddressError::InvalidPayload));
}

#[test]
fn leb_reading_refuses_a_needless_zero_byte() {
    assert_eq!(from_leb_bytes(&[0x80, 0x00]), Err(AddressError::InvalidPayload));
    assert_eq!(from_leb_bytes(&[0xac, 0x82, 0x00]), Err(AddressError::InvalidPayload));
}

#[test]
fn leb_reading_refuses_more_than_ten_bytes() {
    let mut bytes = vec![0x80u8; 10];
    bytes.push(0x01);
    assert_eq!(from_leb_bytes(&bytes), Err(AddressError::InvalidPayload));
}

#[test]
fn leb_reading_drops_bits_beyond_the_sixty_fourth() {
    let mut bytes = vec![0x80u8; 9];
    bytes.push(0x02);
    assert_eq!(from_leb_bytes(&bytes), Ok(0));
    let mut bytes = vec![0x81u8];
    bytes.extend_from_slice(&[0x80u8; 8]);
    bytes.push(0x03);
    assert_eq!(from_leb_bytes(&bytes), Ok((1u64 << 63) + 1));
}

#[test]
fn delegated_address_keeps_namespace_and_subaddress() {
    let addr = DelegatedAddress::new(10, &[1, 2, 3]).unwrap();
    assert_eq!(addr.namespace(), 10);
    assert_eq!(addr.subaddress(), &[1u8, 2, 3][..]);
}

#[test]
fn delegated_address_takes_an_empty_subaddress() {
    let addr = DelegatedAddress::new(0, &[]).unwrap();
    assert_eq!(addr.namespace(), 0);
    assert_eq!(addr.subaddress().len(), 0);
}

#[test]
fn delegated_address_takes_the_longest_subaddress() {
    let sub = [7u8; MAX_SUBADDRESS_LEN];
    let addr = DelegatedAddress::new(u64::MAX, &sub).unwrap();
    assert_eq!(addr.subaddress(), &sub[..]);
}

#[test]
fn delegated_address_refuses_a_longer_subaddress() {
    let sub = [7u8; MAX_SUBADDRESS_LEN + 1];
    assert_eq!(
        DelegatedAddress::new(1, &sub),
        Err(AddressError::InvalidPayloadLength(55))
    );
}

#[test]
fn delegated_addresses_compare_by_namespace_and_subaddress() {
    let a = DelegatedAddress::new(10, &[1, 2, 3]).unwrap();
    let b = DelegatedAddress::new(10, &[1, 2, 3]).unwrap();
    let c = DelegatedAddress::new(10, &[1, 2, 4]).unwrap();
    let d = DelegatedAddress::new(11, &[1, 2, 3]).unwrap();
    let e = DelegatedAddress::new(10, &[1, 2, 3, 0]).unwrap();
    assert_eq!(a, b);
    assert_ne!(a, c);
    assert_ne!(a, d);
    assert_ne!(a, e);
    assert!(a < c);
    assert!(a < d);
}

#[test]
fn bls_public_key_is_its_bytes() {
    let mut bytes = [0u8; BLS_PUB_LEN];
    bytes[0] = 192;
    let key = BLSPublicKey::from(bytes);
    assert_eq!(key, BLSPublicKey(bytes));
    assert_eq!(*key, bytes);
    assert_eq!(key.len(), 48);
    bytes[47] = 1;
    assert_ne!(key, BLSPublicKey(bytes));
}

#[test]
fn raw_bytes_of_an_id_payload() {
    assert_eq!(Payload::ID(0).to_raw_bytes(), vec![0x00]);
    assert_eq!(Payload::ID(300).to_raw_bytes(), vec![0xac, 0x02]);
}

#[test]
fn raw_bytes_of_hash_and_key_payloads() {
    let hash = [9u8; PAYLOAD_HASH_LEN];
    assert_eq!(Payload::Secp256k1(hash).to_raw_bytes(), hash.to_vec());
    assert_eq!(Payload::Actor(hash).to_raw_bytes(), hash.to_vec());
    let key = [3u8; BLS_PUB_LEN];
    assert_eq!(Payload::BLS(BLSPublicKey(key)).to_raw_bytes(), key.to_vec());
}

#[test]
fn raw_bytes_of_a_delegated_payload() {
    let addr = DelegatedAddress::new(300, &[0xaa, 0xbb]).unwrap();
    assert_eq!(
        Payload::Delegated(addr).to_raw_bytes(),
        vec![0xac, 0x02, 0xaa, 0xbb]
    );
}

#[test]
fn bytes_start_with_the_protocol() {
    assert_eq!(Payload::ID(1).to_bytes(), vec![0, 0x01]);
    let hash = [9u8; PAYLOAD_HASH_LEN];
    let mut expected = vec![1u8];
    expected.extend_from_slice(&hash);
    assert_eq!(Payload::Secp256k1(hash).to_bytes(), expected);
    expected[0] = 2;
    assert_eq!(Payload::Actor(hash).to_bytes(), expected);
    let key = [3u8; BLS_PUB_LEN];
    let mut expected = vec![3u8];
    expected.extend_from_slice(&key);
    assert_eq!(Payload::BLS(BLSPublicKey(key)).to_bytes(), expected);
    let addr = DelegatedAddress::new(10, &[0xaa]).unwrap();
    assert_eq!(Payload::Delegated(addr).to_bytes(), vec![4, 10, 0xaa]);
}

#[test]
fn payload_from_id_bytes() {
    assert_eq!(Payload::new(Protocol::ID, &[0xac, 0x02]), Ok(Payload::ID(300)));
    assert_eq!(
        Payload::new(Protocol::ID, &[0xac, 0x02, 0x00]),
        Err(AddressError::InvalidPayload)
    );
    assert_eq!(Payload::new(Protocol::ID, &[]), Err(AddressError::InvalidPayload));
}

#[test]
fn payload_from_hash_bytes() {
    let hash = [5u8; PAYLOAD_HASH_LEN];
    assert_eq!(Payload::new(Protocol::Secp256k1, &hash), Ok(Payload::Secp256k1(hash)));
    assert_eq!(Payload::new(Protocol::Actor, &hash), Ok(Payload::Actor(hash)));
    assert_eq!(
        Payload::new(Protocol::Secp256k1, &hash[..19]),
        Err(AddressError::InvalidPayloadLength(19))
    );
    assert_eq!(
        Payload::new(Protocol::Actor, &[0u8; 21]),
        Err(AddressError::InvalidPayloadLength(21))
    );
}

#[test]
fn payload_from_key_bytes() {
    let key = [6u8; BLS_PUB_LEN];
    assert_eq!(Payload::new(Protocol::BLS, &key), Ok(Payload::BLS(BLSPublicKey(key))));
    assert_eq!(
        Payload::new(Protocol::BLS, &key[..20]),
        Err(AddressError::InvalidBLSLength(20))
    );
}

#[test]
fn payload_from_delegated_bytes() {
    let expected = DelegatedAddress::new(300, &[0xaa, 0xbb]).unwrap();
    assert_eq!(
        Payload::new(Protocol::Delegated, &[0xac, 0x02, 0xaa, 0xbb]),
        Ok(Payload::Delegated(expected))
    );
    assert_eq!(
        Payload::new(Protocol::Delegated, &[0xac]),
        Err(AddressError::InvalidPayload)
    );
    let mut long = vec![0x01u8];
    long.extend_from_slice(&[0u8; 55]);
    assert_eq!(
        Payload::new(Protocol::Delegated, &long),
        Err(AddressError::InvalidPayloadLength(55))
    );
}

#[test]
fn payloads_are_read_back_from_their_raw_bytes() {
    let payloads = [
        Payload::ID(u64::MAX),
        Payload::Secp256k1([1u8; PAYLOAD_HASH_LEN]),
        Payload::Actor([2u8; PAYLOAD_HASH_LEN]),
        Payload::BLS(BLSPublicKey([3u8; BLS_PUB_LEN])),
        Payload::Delegated(DelegatedAddress::new(1 << 40, &[4u8; 54]).unwrap()),
    ];
    for payload in payloads {
        let protocol = Protocol::from(payload);
        assert_eq!(Payload::new(protocol, &payload.to_raw_bytes()), Ok(payload));
    }
}

#[test]
fn protocol_of_each_payload() {
    assert_eq!(Protocol::from(Payload::ID(1)), Protocol::ID);
    assert_eq!(Protocol::from(Payload::Secp256k1([0u8; 20])), Protocol::Secp256k1);
    assert_eq!(Protocol::from(&Payload::Actor([0u8; 20])), Protocol::Actor);
    assert_eq!(Protocol::from(&Payload::BLS(BLSPublicKey([0u8; 48]))), Protocol::BLS);
    let addr = DelegatedAddress::new(1, &[]).unwrap();
    assert_eq!(Protocol::from(Payload::Delegated(addr)), Protocol::Delegated);
}

#[test]
fn protocol_bytes() {
    let all = [
        (Protocol::ID, 0u8),
        (Protocol::Secp256k1, 1),
        (Protocol::Actor, 2),
        (Protocol::BLS, 3),
        (Protocol::Delegated, 4),
    ];
    for (protocol, byte) in all {
        assert_eq!(protocol.to_byte(), byte);
        assert_eq!(Protocol::from_byte(byte), Some(protocol));
    }
    assert_eq!(Protocol::from_byte(5), None);
    assert_eq!(Protocol::from_byte(255), None);
}

#[test]
fn payloads_of_different_protocols_differ() {
    let hash = [1u8; PAYLOAD_HASH_LEN];
    assert_ne!(Payload::Secp256k1(hash), Payload::Actor(hash));
    assert_ne!(Payload::ID(1), Payload::ID(2));
    assert_eq!(Payload::Actor(hash), Payload::Actor(hash));
}
