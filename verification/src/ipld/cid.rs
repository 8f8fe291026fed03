//! Content identifiers as plain data.

use vstd::prelude::*;
use vstd::std_specs::cmp::PartialEqSpecImpl;

use crate::address::payload::bytes_equal;

verus! {

/// Greatest length of the digest in a content identifier.
pub const MAX_DIGEST_LEN: usize = 64;

/// What a content identifier says: the version of the format, the codec of
/// the content, the hash function, and the digest of the content.
pub struct CidView {
    pub version: u64,
    pub codec: u64,
    pub hash_code: u64,
    pub digest: Seq<u8>,
}

/// A content identifier: a hash-plus-codec tag over serialized bytes. It is
/// compared and copied here, never computed.
#[derive(Clone, Copy, Debug, Eq, Hash)]
pub struct Cid {
    version: u64,
    codec: u64,
    hash_code: u64,
    length: usize,
    digest: [u8; 64],
}

impl View for Cid {
    type V = CidView;

    closed spec fn view(&self) -> CidView {
        CidView {
            version: self.version,
            codec: self.codec,
            hash_code: self.hash_code,
            digest: self.digest@.take(self.length as int),
        }
    }
}

impl Cid {
    /// The digest fills the start of a fixed buffer and the rest is zero, so
    /// that identifiers which say the same are the same value.
    #[verifier::type_invariant]
    pub closed spec fn well_formed(&self) -> bool {
        &&& self.length <= MAX_DIGEST_LEN
        &&& forall|i: int| self.length <= i < MAX_DIGEST_LEN ==> self.digest@[i] == 0
    }

    /// Well-formed identifiers that say the same are equal.
    pub proof fn lemma_view_decides(self, other: Self)
        requires
            self.well_formed(),
            other.well_formed(),
            self@ == other@,
        ensures
            self == other,
    {
        assert(self.digest@.len() == 64 && other.digest@.len() == 64);
        assert(self@.digest.len() == self.length);
        assert(other@.digest.len() == other.length);
        assert forall|i: int| 0 <= i < 64 implies self.digest@[i] == other.digest@[i] by {
            if i < self.length {
                assert(self@.digest[i] == self.digest@[i]);
                assert(other@.digest[i] == other.digest@[i]);
            }
        }
        assert(self.digest =~= other.digest);
    }

    /// Builds an identifier from its parts. A digest of more than
    /// `MAX_DIGEST_LEN` bytes does not fit and gives `None`.
    pub fn new(version: u64, codec: u64, hash_code: u64, digest: &[u8]) -> (r: Option<Self>)
        ensures
            match r {
                Some(cid) => {
                    &&& digest@.len() <= MAX_DIGEST_LEN
                    &&& cid.well_formed()
                    &&& cid@ == (CidView { version, codec, hash_code, digest: digest@ })
                },
                None => digest@.len() > MAX_DIGEST_LEN,
            },
    {
        let length = digest.len();
        if length > MAX_DIGEST_LEN {
            return None;
        }
        let mut buffer: [u8; 64] = [0u8; 64];
        let mut i: usize = 0;
        while i < length
            invariant
                i <= length <= 64,
                length == digest.len(),
                forall|j: int| 0 <= j < i ==> buffer@[j] == digest@[j],
                forall|j: int| i <= j < 64 ==> buffer@[j] == 0,
            decreases length - i,
        {
            buffer[i] = digest[i];
            i = i + 1;
        }
        let cid = Cid { version, codec, hash_code, length, digest: buffer };
        assert(cid@.digest =~= digest@);
        Some(cid)
    }

    /// The version of the identifier's format.
    pub fn version(&self) -> (r: u64)
        ensures
            r == self@.version,
    {
        self.version
    }

    /// The codec of the content.
    pub fn codec(&self) -> (r: u64)
        ensures
            r == self@.codec,
    {
        self.codec
    }

    /// The code of the hash function.
    pub fn hash_code(&self) -> (r: u64)
        ensures
            r == self@.hash_code,
    {
        self.hash_code
    }

    /// The digest of the content.
    pub fn digest(&self) -> (r: &[u8])
        ensures
            r@ == self@.digest,
            r@.len() <= MAX_DIGEST_LEN,
    {
        proof {
            use_type_invariant(self);
        }
        let r = vstd::slice::slice_subrange(self.digest.as_slice(), 0, self.length);
        assert(r@ =~= self@.digest);
        r
    }
}

impl PartialEq for Cid {
    fn eq(&self, other: &Self) -> (r: bool) {
        let r = self.version == other.version && self.codec == other.codec && self.hash_code
            == other.hash_code && self.length == other.length && bytes_equal(
            self.digest.as_slice(),
            other.digest.as_slice(),
        );
        proof {
            if r {
                assert(self.digest =~= other.digest);
            }
        }
        r
    }
}

impl PartialEqSpecImpl for Cid {
    open spec fn obeys_eq_spec() -> bool {
        true
    }

    open spec fn eq_spec(&self, other: &Self) -> bool {
        *self == *other
    }
}

} // verus!
