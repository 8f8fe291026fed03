//! The data of an address, one variant per protocol.

use vstd::prelude::*;
use vstd::std_specs::cmp::PartialEqSpecImpl;
use vstd::std_specs::convert::FromSpecImpl;

use super::errors::AddressError;
use super::protocol::Protocol;
use super::varint::{
    decode_u64, lemma_decode_encoding, varint_accepted, varint_encoding, varint_rest, varint_value,
};
use super::{from_leb_bytes, leb_decoding, to_leb_bytes, ActorID};
use super::{BLS_PUB_LEN, MAX_SUBADDRESS_LEN, PAYLOAD_HASH_LEN};

verus! {

/// Whether two runs of bytes hold the same bytes.
pub fn bytes_equal(a: &[u8], b: &[u8]) -> (r: bool)
    ensures
        r == (a@ == b@),
{
    if a.len() != b.len() {
        return false;
    }
    let mut i: usize = 0;
    while i < a.len()
        invariant
            i <= a.len(),
            a.len() == b.len(),
            forall|j: int| 0 <= j < i ==> a@[j] == b@[j],
        decreases a.len() - i,
    {
        if a[i] != b[i] {
            return false;
        }
        i = i + 1;
    }
    assert(a@ =~= b@);
    true
}

/// Public key struct used as BLS address data.
#[derive(Clone, Copy, Debug, Eq, Hash)]
pub struct BLSPublicKey(pub [u8; 48]);

impl PartialEq for BLSPublicKey {
    fn eq(&self, other: &Self) -> (r: bool) {
        let r = bytes_equal(self.0.as_slice(), other.0.as_slice());
        proof {
            if r {
                assert(self.0 =~= other.0);
            }
        }
        r
    }
}

impl PartialEqSpecImpl for BLSPublicKey {
    open spec fn obeys_eq_spec() -> bool {
        true
    }

    open spec fn eq_spec(&self, other: &Self) -> bool {
        *self == *other
    }
}

impl From<[u8; 48]> for BLSPublicKey {
    fn from(pk: [u8; 48]) -> (r: Self) {
        BLSPublicKey(pk)
    }
}

impl std::ops::Deref for BLSPublicKey {
    type Target = [u8; 48];

    fn deref(&self) -> (r: &[u8; 48])
        ensures
            *r == self.0,
    {
        &self.0
    }
}

impl FromSpecImpl<[u8; 48]> for BLSPublicKey {
    open spec fn obeys_from_spec() -> bool {
        true
    }

    open spec fn from_spec(pk: [u8; 48]) -> Self {
        BLSPublicKey(pk)
    }
}

/// What a delegated address stands for: a namespace and the subaddress in it.
pub struct DelegatedAddressView {
    pub namespace: ActorID,
    pub subaddress: Seq<u8>,
}

/// A "delegated" (f4) address.
#[derive(Clone, Copy, Debug, Eq, Hash, PartialOrd, Ord)]
pub struct DelegatedAddress {
    namespace: ActorID,
    length: usize,
    buffer: [u8; 54],
}

impl View for DelegatedAddress {
    type V = DelegatedAddressView;

    closed spec fn view(&self) -> DelegatedAddressView {
        DelegatedAddressView {
            namespace: self.namespace,
            subaddress: self.buffer@.take(self.length as int),
        }
    }
}

impl DelegatedAddress {
    /// The subaddress fills the start of a fixed buffer, and the rest of the
    /// buffer is zero: two addresses with the same namespace and subaddress are
    /// the same value.
    #[verifier::type_invariant]
    pub closed spec fn well_formed(&self) -> bool {
        &&& self.length <= MAX_SUBADDRESS_LEN
        &&& forall|i: int| self.length <= i < MAX_SUBADDRESS_LEN ==> self.buffer@[i] == 0
    }

    /// A well-formed address has a subaddress of at most `MAX_SUBADDRESS_LEN`
    /// bytes.
    pub proof fn lemma_subaddress_bounded(self)
        requires
            self.well_formed(),
        ensures
            self@.subaddress.len() <= MAX_SUBADDRESS_LEN,
    {
    }

    /// Well-formed addresses that stand for the same thing are equal.
    pub proof fn lemma_view_decides(self, other: Self)
        requires
            self.well_formed(),
            other.well_formed(),
            self@ == other@,
        ensures
            self == other,
    {
        assert(self.buffer@.len() == 54 && other.buffer@.len() == 54);
        assert(self@.subaddress.len() == self.length);
        assert(other@.subaddress.len() == other.length);
        assert forall|i: int| 0 <= i < 54 implies self.buffer@[i] == other.buffer@[i] by {
            if i < self.length {
                assert(self@.subaddress[i] == self.buffer@[i]);
                assert(other@.subaddress[i] == other.buffer@[i]);
            }
        }
        assert(self.buffer =~= other.buffer);
    }

    /// Construct a new delegated address from the namespace (actor id) and
    /// subaddress. A subaddress longer than `MAX_SUBADDRESS_LEN` is refused,
    /// with its length.
    pub fn new(namespace: ActorID, subaddress: &[u8]) -> (r: Result<Self, AddressError>)
        ensures
            match r {
                Ok(addr) => {
                    &&& subaddress@.len() <= MAX_SUBADDRESS_LEN
                    &&& addr.well_formed()
                    &&& addr@.namespace == namespace
                    &&& addr@.subaddress == subaddress@
                },
                Err(e) => {
                    &&& subaddress@.len() > MAX_SUBADDRESS_LEN
                    &&& e == AddressError::InvalidPayloadLength(subaddress.len())
                },
            },
    {
        let length = subaddress.len();
        if length > MAX_SUBADDRESS_LEN {
            return Err(AddressError::InvalidPayloadLength(length));
        }
        let mut buffer: [u8; 54] = [0u8; 54];
        let mut i: usize = 0;
        while i < length
            invariant
                i <= length <= 54,
                length == subaddress.len(),
                forall|j: int| 0 <= j < i ==> buffer@[j] == subaddress@[j],
                forall|j: int| i <= j < 54 ==> buffer@[j] == 0,
            decreases length - i,
        {
            buffer[i] = subaddress[i];
            i = i + 1;
        }
        let addr = DelegatedAddress { namespace, length, buffer };
        assert(addr@.subaddress =~= subaddress@);
        Ok(addr)
    }

    /// Returns the delegated address's namespace.
    #[inline]
    pub fn namespace(&self) -> (r: ActorID)
        ensures
            r == self@.namespace,
    {
        self.namespace
    }

    /// Returns the delegated address's subaddress.
    #[inline]
    pub fn subaddress(&self) -> (r: &[u8])
        ensures
            r@ == self@.subaddress,
            r@.len() <= MAX_SUBADDRESS_LEN,
    {
        proof {
            use_type_invariant(self);
        }
        let whole = self.buffer.as_slice();
        let r = vstd::slice::slice_subrange(whole, 0, self.length);
        assert(r@ =~= self@.subaddress);
        r
    }
}

impl PartialEq for DelegatedAddress {
    fn eq(&self, other: &Self) -> (r: bool) {
        let r = self.namespace == other.namespace && self.length == other.length && bytes_equal(
            self.buffer.as_slice(),
            other.buffer.as_slice(),
        );
        proof {
            if r {
                assert(self.buffer =~= other.buffer);
            }
        }
        r
    }
}

impl PartialEqSpecImpl for DelegatedAddress {
    open spec fn obeys_eq_spec() -> bool {
        true
    }

    open spec fn eq_spec(&self, other: &Self) -> bool {
        *self == *other
    }
}

/// What a payload stands for: the data of the address, by protocol.
pub enum PayloadView {
    ID(u64),
    Secp256k1(Seq<u8>),
    Actor(Seq<u8>),
    BLS(Seq<u8>),
    Delegated(DelegatedAddressView),
}

impl PayloadView {
    /// The protocol that the payload belongs to.
    pub open spec fn protocol(self) -> Protocol {
        match self {
            PayloadView::ID(_) => Protocol::ID,
            PayloadView::Secp256k1(_) => Protocol::Secp256k1,
            PayloadView::Actor(_) => Protocol::Actor,
            PayloadView::BLS(_) => Protocol::BLS,
            PayloadView::Delegated(_) => Protocol::Delegated,
        }
    }

    /// The lengths that each protocol fixes or bounds.
    pub open spec fn well_formed(self) -> bool {
        match self {
            PayloadView::ID(_) => true,
            PayloadView::Secp256k1(hash) => hash.len() == PAYLOAD_HASH_LEN,
            PayloadView::Actor(hash) => hash.len() == PAYLOAD_HASH_LEN,
            PayloadView::BLS(key) => key.len() == BLS_PUB_LEN,
            PayloadView::Delegated(addr) => addr.subaddress.len() <= MAX_SUBADDRESS_LEN,
        }
    }

    /// The encoded payload, without the protocol byte: a number as a varint,
    /// a hash or key as it is, a delegated address as the varint of its
    /// namespace followed by its subaddress.
    pub open spec fn raw_bytes(self) -> Seq<u8> {
        match self {
            PayloadView::ID(id) => varint_encoding(id as nat),
            PayloadView::Secp256k1(hash) => hash,
            PayloadView::Actor(hash) => hash,
            PayloadView::BLS(key) => key,
            PayloadView::Delegated(addr) => varint_encoding(addr.namespace as nat)
                + addr.subaddress,
        }
    }

    /// The encoded payload after its protocol byte.
    pub open spec fn bytes(self) -> Seq<u8> {
        seq![self.protocol().byte()] + self.raw_bytes()
    }

    /// What `Payload::new` makes of `bytes` under `protocol`.
    pub open spec fn parse(protocol: Protocol, bytes: Seq<u8>) -> Result<
        PayloadView,
        AddressError,
    > {
        match protocol {
            Protocol::ID => match leb_decoding(bytes) {
                Ok(id) => Ok(PayloadView::ID(id)),
                Err(e) => Err(e),
            },
            Protocol::Secp256k1 => if bytes.len() == PAYLOAD_HASH_LEN {
                Ok(PayloadView::Secp256k1(bytes))
            } else {
                Err(AddressError::InvalidPayloadLength(bytes.len() as usize))
            },
            Protocol::Actor => if bytes.len() == PAYLOAD_HASH_LEN {
                Ok(PayloadView::Actor(bytes))
            } else {
                Err(AddressError::InvalidPayloadLength(bytes.len() as usize))
            },
            Protocol::BLS => if bytes.len() == BLS_PUB_LEN {
                Ok(PayloadView::BLS(bytes))
            } else {
                Err(AddressError::InvalidBLSLength(bytes.len() as usize))
            },
            Protocol::Delegated => if !varint_accepted(bytes) {
                Err(AddressError::InvalidPayload)
            } else if varint_rest(bytes).len() > MAX_SUBADDRESS_LEN {
                Err(AddressError::InvalidPayloadLength(varint_rest(bytes).len() as usize))
            } else {
                Ok(
                    PayloadView::Delegated(
                        DelegatedAddressView {
                            namespace: varint_value(bytes),
                            subaddress: varint_rest(bytes),
                        },
                    ),
                )
            },
        }
    }
}

/// Parsing reads back what encoding wrote: the raw bytes of a well-formed
/// payload, parsed under the payload's protocol, give the payload.
pub proof fn lemma_parse_raw_bytes(payload: PayloadView)
    requires
        payload.well_formed(),
    ensures
        PayloadView::parse(payload.protocol(), payload.raw_bytes()) == Ok::<
            PayloadView,
            AddressError,
        >(payload),
{
    match payload {
        PayloadView::ID(id) => {
            lemma_decode_encoding(id, Seq::<u8>::empty());
            assert(varint_encoding(id as nat) + Seq::<u8>::empty() =~= varint_encoding(id as nat));
        },
        PayloadView::Delegated(addr) => {
            lemma_decode_encoding(addr.namespace, addr.subaddress);
        },
        _ => {},
    }
}

/// A payload can be told from its encoding: well-formed payloads with the
/// same bytes are the same payload.
pub proof fn lemma_bytes_decide(payload: PayloadView, other: PayloadView)
    requires
        payload.well_formed(),
        other.well_formed(),
        payload.bytes() == other.bytes(),
    ensures
        payload == other,
{
    assert(payload.bytes()[0] == payload.protocol().byte());
    assert(other.bytes()[0] == other.protocol().byte());
    assert(payload.bytes().skip(1) =~= payload.raw_bytes());
    assert(other.bytes().skip(1) =~= other.raw_bytes());
    lemma_parse_raw_bytes(payload);
    lemma_parse_raw_bytes(other);
}

/// Payload is the data of the Address. Variants are the supported Address
/// protocols.
#[derive(Clone, Copy, Debug, Eq, Hash)]
pub enum Payload {
    /// ID protocol address.
    ID(u64),
    /// SECP256K1 key address, 20 byte hash of PublicKey.
    Secp256k1([u8; 20]),
    /// Actor protocol address, 20 byte hash of actor data.
    Actor([u8; 20]),
    /// BLS key address, full 48 byte public key.
    BLS(BLSPublicKey),
    /// f4: Delegated address, a namespace with an arbitrary subaddress.
    Delegated(DelegatedAddress),
}

impl View for Payload {
    type V = PayloadView;

    open spec fn view(&self) -> PayloadView {
        match *self {
            Payload::ID(id) => PayloadView::ID(id),
            Payload::Secp256k1(hash) => PayloadView::Secp256k1(hash@),
            Payload::Actor(hash) => PayloadView::Actor(hash@),
            Payload::BLS(key) => PayloadView::BLS(key.0@),
            Payload::Delegated(addr) => PayloadView::Delegated(addr@),
        }
    }
}

/// Copies twenty bytes into an array.
fn hash_array(bytes: &[u8]) -> (out: [u8; 20])
    requires
        bytes@.len() == 20,
    ensures
        out@ == bytes@,
{
    let mut out: [u8; 20] = [0u8; 20];
    let mut i: usize = 0;
    while i < 20
        invariant
            i <= 20,
            bytes@.len() == 20,
            forall|j: int| 0 <= j < i ==> out@[j] == bytes@[j],
        decreases 20 - i,
    {
        out[i] = bytes[i];
        i = i + 1;
    }
    assert(out@ =~= bytes@);
    out
}

/// Copies forty-eight bytes into an array.
fn key_array(bytes: &[u8]) -> (out: [u8; 48])
    requires
        bytes@.len() == 48,
    ensures
        out@ == bytes@,
{
    let mut out: [u8; 48] = [0u8; 48];
    let mut i: usize = 0;
    while i < 48
        invariant
            i <= 48,
            bytes@.len() == 48,
            forall|j: int| 0 <= j < i ==> out@[j] == bytes@[j],
        decreases 48 - i,
    {
        out[i] = bytes[i];
        i = i + 1;
    }
    assert(out@ =~= bytes@);
    out
}

impl Payload {
    /// Whether the payload is one that this module builds: a delegated address
    /// in it keeps its invariant.
    pub open spec fn well_formed(self) -> bool {
        match self {
            Payload::Delegated(addr) => addr.well_formed(),
            _ => true,
        }
    }

    /// A well-formed payload stands for a well-formed view.
    pub proof fn lemma_view_well_formed(self)
        requires
            self.well_formed(),
        ensures
            self@.well_formed(),
    {
        match self {
            Payload::Delegated(addr) => {
                addr.lemma_subaddress_bounded();
            },
            _ => {},
        }
    }

    /// What `to_raw_bytes` writes, `new` reads back: the raw bytes of a
    /// well-formed payload, parsed under its protocol, stand for the payload.
    pub proof fn lemma_round_trip(self)
        requires
            self.well_formed(),
        ensures
            PayloadView::parse(self@.protocol(), self@.raw_bytes()) == Ok::<
                PayloadView,
                AddressError,
            >(self@),
    {
        self.lemma_view_well_formed();
        lemma_parse_raw_bytes(self@);
    }

    /// Well-formed payloads that stand for the same thing are equal.
    pub proof fn lemma_view_decides(self, other: Self)
        requires
            self.well_formed(),
            other.well_formed(),
            self@ == other@,
        ensures
            self == other,
    {
        match (self, other) {
            (Payload::Secp256k1(a), Payload::Secp256k1(b)) => {
                assert(a =~= b);
            },
            (Payload::Actor(a), Payload::Actor(b)) => {
                assert(a =~= b);
            },
            (Payload::BLS(a), Payload::BLS(b)) => {
                assert(a.0 =~= b.0);
            },
            (Payload::Delegated(a), Payload::Delegated(b)) => {
                a.lemma_view_decides(b);
            },
            _ => {},
        }
    }

    /// Returns encoded bytes of Address without the protocol byte.
    pub fn to_raw_bytes(&self) -> (r: Vec<u8>)
        ensures
            r@ == self@.raw_bytes(),
    {
        match self {
            Payload::ID(i) => to_leb_bytes(*i).unwrap(),
            Payload::Secp256k1(arr) => vstd::slice::slice_to_vec(arr.as_slice()),
            Payload::Actor(arr) => vstd::slice::slice_to_vec(arr.as_slice()),
            Payload::BLS(key) => vstd::slice::slice_to_vec(key.0.as_slice()),
            Payload::Delegated(addr) => {
                let mut buf = to_leb_bytes(addr.namespace()).unwrap();
                buf.extend_from_slice(addr.subaddress());
                buf
            },
        }
    }

    /// Returns encoded bytes of Address including the protocol byte.
    pub fn to_bytes(&self) -> (r: Vec<u8>)
        ensures
            r@ == self@.bytes(),
    {
        let mut bz = self.to_raw_bytes();
        bz.insert(0, Protocol::from(self).to_byte());
        assert(bz@ =~= self@.bytes());
        bz
    }

    /// Generates payload from raw bytes and protocol.
    pub fn new(protocol: Protocol, payload: &[u8]) -> (r: Result<Self, AddressError>)
        ensures
            match r {
                Ok(p) => p.well_formed() && PayloadView::parse(protocol, payload@) == Ok::<
                    PayloadView,
                    AddressError,
                >(p@),
                Err(e) => PayloadView::parse(protocol, payload@) == Err::<
                    PayloadView,
                    AddressError,
                >(e),
            },
    {
        match protocol {
            Protocol::ID => match from_leb_bytes(payload) {
                Ok(id) => Ok(Payload::ID(id)),
                Err(e) => Err(e),
            },
            Protocol::Secp256k1 => {
                if payload.len() != PAYLOAD_HASH_LEN {
                    return Err(AddressError::InvalidPayloadLength(payload.len()));
                }
                Ok(Payload::Secp256k1(hash_array(payload)))
            },
            Protocol::Actor => {
                if payload.len() != PAYLOAD_HASH_LEN {
                    return Err(AddressError::InvalidPayloadLength(payload.len()));
                }
                Ok(Payload::Actor(hash_array(payload)))
            },
            Protocol::BLS => {
                if payload.len() != BLS_PUB_LEN {
                    return Err(AddressError::InvalidBLSLength(payload.len()));
                }
                let pk = key_array(payload);
                Ok(Payload::BLS(BLSPublicKey::from(pk)))
            },
            Protocol::Delegated => match decode_u64(payload) {
                Ok((id, remaining)) => match DelegatedAddress::new(id, remaining) {
                    Ok(addr) => Ok(Payload::Delegated(addr)),
                    Err(e) => Err(e),
                },
                Err(_) => Err(AddressError::InvalidPayload),
            },
        }
    }
}

impl PartialEq for Payload {
    fn eq(&self, other: &Self) -> (r: bool) {
        match (self, other) {
            (Payload::ID(a), Payload::ID(b)) => *a == *b,
            (Payload::Secp256k1(a), Payload::Secp256k1(b)) => {
                let r = bytes_equal(a.as_slice(), b.as_slice());
                proof {
                    if r {
                        assert(*a =~= *b);
                    }
                }
                r
            },
            (Payload::Actor(a), Payload::Actor(b)) => {
                let r = bytes_equal(a.as_slice(), b.as_slice());
                proof {
                    if r {
                        assert(*a =~= *b);
                    }
                }
                r
            },
            (Payload::BLS(a), Payload::BLS(b)) => *a == *b,
            (Payload::Delegated(a), Payload::Delegated(b)) => *a == *b,
            _ => false,
        }
    }
}

impl PartialEqSpecImpl for Payload {
    open spec fn obeys_eq_spec() -> bool {
        true
    }

    open spec fn eq_spec(&self, other: &Self) -> bool {
        *self == *other
    }
}

impl From<Payload> for Protocol {
    fn from(pl: Payload) -> (r: Self) {
        match pl {
            Payload::ID(_) => Protocol::ID,
            Payload::Secp256k1(_) => Protocol::Secp256k1,
            Payload::Actor(_) => Protocol::Actor,
            Payload::BLS(_) => Protocol::BLS,
            Payload::Delegated(_) => Protocol::Delegated,
        }
    }
}

impl FromSpecImpl<Payload> for Protocol {
    open spec fn obeys_from_spec() -> bool {
        true
    }

    open spec fn from_spec(pl: Payload) -> Self {
        pl@.protocol()
    }
}

impl From<&Payload> for Protocol {
    fn from(pl: &Payload) -> (r: Self) {
        match pl {
            Payload::ID(_) => Protocol::ID,
            Payload::Secp256k1(_) => Protocol::Secp256k1,
            Payload::Actor(_) => Protocol::Actor,
            Payload::BLS(_) => Protocol::BLS,
            Payload::Delegated(_) => Protocol::Delegated,
        }
    }
}

impl FromSpecImpl<&Payload> for Protocol {
    open spec fn obeys_from_spec() -> bool {
        true
    }

    open spec fn from_spec(pl: &Payload) -> Self {
        pl@.protocol()
    }
}

} // verus!
