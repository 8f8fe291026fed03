//! Amounts of token, in its smallest unit.
//!
//! An amount is a whole number of any size. It is held as a sign and the bytes
//! of its magnitude; the arithmetic on it is that of `fvm_shared`'s big
//! integers.

use fvm_shared::bigint::{BigInt, Sign};
use vstd::prelude::*;
use vstd::std_specs::cmp::PartialEqSpecImpl;

use crate::address::payload::bytes_equal;

verus! {

/// The number that bytes spell, least significant byte first.
pub open spec fn magnitude_value(bytes: Seq<u8>) -> nat
    decreases bytes.len(),
{
    if bytes.len() == 0 {
        0
    } else {
        bytes[0] as nat + 256 * magnitude_value(bytes.skip(1))
    }
}

#[verifier::external_type_specification]
pub struct ExSign(Sign);

/// The number that a sign and a magnitude spell. Without a sign it is zero,
/// whatever the magnitude.
pub open spec fn signed_value(sign: Sign, magnitude: Seq<u8>) -> int {
    match sign {
        Sign::Minus => -(magnitude_value(magnitude) as int),
        Sign::NoSign => 0,
        Sign::Plus => magnitude_value(magnitude) as int,
    }
}

/// The shortest way to spell a magnitude: no zero byte at the most
/// significant end.
pub open spec fn shortest(bytes: Seq<u8>) -> bool {
    bytes.len() > 0 ==> bytes.last() != 0
}

/// A zero byte at the most significant end adds nothing.
pub proof fn lemma_leading_zero(bytes: Seq<u8>)
    requires
        bytes.len() > 0,
        bytes.last() == 0,
    ensures
        magnitude_value(bytes.drop_last()) == magnitude_value(bytes),
    decreases bytes.len(),
{
    if bytes.len() == 1 {
        assert(bytes.skip(1) =~= Seq::<u8>::empty());
        assert(magnitude_value(bytes.skip(1)) == 0);
    } else {
        let rest = bytes.skip(1);
        assert(rest.last() == 0);
        lemma_leading_zero(rest);
        assert(bytes.drop_last().skip(1) =~= rest.drop_last());
        assert(bytes.drop_last()[0] == bytes[0]);
    }
}

/// The shortest spelling of a magnitude other than zero is not empty, and
/// the other way round.
pub proof fn lemma_shortest_positive(bytes: Seq<u8>)
    requires
        shortest(bytes),
    ensures
        bytes.len() > 0 <==> magnitude_value(bytes) > 0,
    decreases bytes.len(),
{
    if bytes.len() > 0 {
        let rest = bytes.skip(1);
        if rest.len() > 0 {
            assert(rest.last() == bytes.last());
            lemma_shortest_positive(rest);
        } else {
            assert(bytes[0] == bytes.last());
        }
    }
}

/// A magnitude has one shortest spelling.
pub proof fn lemma_shortest_unique(a: Seq<u8>, b: Seq<u8>)
    requires
        shortest(a),
        shortest(b),
        magnitude_value(a) == magnitude_value(b),
    ensures
        a == b,
    decreases a.len(),
{
    lemma_shortest_positive(a);
    lemma_shortest_positive(b);
    if a.len() > 0 {
        let (ra, rb) = (a.skip(1), b.skip(1));
        assert(shortest(ra)) by {
            if ra.len() > 0 {
                assert(ra.last() == a.last());
            }
        }
        assert(shortest(rb)) by {
            if rb.len() > 0 {
                assert(rb.last() == b.last());
            }
        }
        let (va, vb) = (magnitude_value(ra), magnitude_value(rb));
        assert(a[0] == b[0] && va == vb) by {
            assert(a[0] + 256 * va == b[0] + 256 * vb);
        }
        lemma_shortest_unique(ra, rb);
        assert(a =~= seq![a[0]] + ra);
        assert(b =~= seq![b[0]] + rb);
    } else {
        assert(a =~= b);
    }
}

/// Trusted: `Mul<u64>` of `fvm_shared::econ::TokenAmount`, which is that of
/// `num_bigint::BigInt`. The amount goes in through `BigInt::from_bytes_le`
/// and comes out through `BigInt::to_bytes_le`, as sign and magnitude. The
/// contract claims that what comes out spells the product.
#[verifier::external_body]
fn product(sign: Sign, magnitude: &[u8], factor: u64) -> (r: (Sign, Vec<u8>))
    ensures
        signed_value(r.0, r.1@) == signed_value(sign, magnitude@) * factor,
{
    let amount = fvm_shared::econ::TokenAmount::from_atto(BigInt::from_bytes_le(sign, magnitude));
    (amount * factor).atto().to_bytes_le()
}

/// Trusted: `Add` of `fvm_shared::econ::TokenAmount`, which is that of
/// `num_bigint::BigInt`. The amounts go in through `BigInt::from_bytes_le`
/// and the result comes out through `BigInt::to_bytes_le`, as sign and
/// magnitude. The contract claims that what comes out spells the sum.
#[verifier::external_body]
fn sum(sign: Sign, magnitude: &[u8], other_sign: Sign, other_magnitude: &[u8]) -> (r: (
    Sign,
    Vec<u8>,
))
    ensures
        signed_value(r.0, r.1@) == signed_value(sign, magnitude@) + signed_value(
            other_sign,
            other_magnitude@,
        ),
{
    let amount = fvm_shared::econ::TokenAmount::from_atto(BigInt::from_bytes_le(sign, magnitude));
    let other = fvm_shared::econ::TokenAmount::from_atto(
        BigInt::from_bytes_le(other_sign, other_magnitude),
    );
    (amount + other).atto().to_bytes_le()
}

/// A whole number of the token's smallest unit, of any size.
#[derive(Debug, Eq)]
pub struct TokenAmount {
    sign: Sign,
    magnitude: Vec<u8>,
}

impl View for TokenAmount {
    type V = int;

    closed spec fn view(&self) -> int {
        signed_value(self.sign, self.magnitude@)
    }
}

impl Clone for TokenAmount {
    fn clone(&self) -> (r: Self)
        ensures
            r@ == self@,
    {
        proof {
            use_type_invariant(self);
        }
        let magnitude = self.magnitude.clone();
        assert(magnitude@ =~= self.magnitude@);
        TokenAmount { sign: self.sign, magnitude }
    }
}

impl TokenAmount {
    /// An amount is held in one way only: the magnitude in its shortest
    /// spelling, and zero, and only zero, without a sign.
    #[verifier::type_invariant]
    pub closed spec fn well_formed(&self) -> bool {
        &&& shortest(self.magnitude@)
        &&& self.sign == Sign::NoSign <==> self.magnitude@.len() == 0
    }

    /// The amount with the given sign and magnitude, least significant byte
    /// first. Zero bytes at the most significant end are dropped.
    pub fn from_parts(sign: Sign, magnitude: Vec<u8>) -> (r: Self)
        ensures
            r.well_formed(),
            r@ == signed_value(sign, magnitude@),
    {
        let ghost given = magnitude@;
        let mut magnitude = magnitude;
        while magnitude.len() > 0 && magnitude[magnitude.len() - 1] == 0
            invariant
                magnitude_value(magnitude@) == magnitude_value(given),
            decreases magnitude.len(),
        {
            proof {
                lemma_leading_zero(magnitude@);
            }
            magnitude.pop();
        }
        proof {
            lemma_shortest_positive(magnitude@);
        }
        if magnitude.len() == 0 {
            return TokenAmount { sign: Sign::NoSign, magnitude };
        }
        match sign {
            Sign::NoSign => TokenAmount { sign: Sign::NoSign, magnitude: Vec::new() },
            Sign::Minus => TokenAmount { sign: Sign::Minus, magnitude },
            Sign::Plus => TokenAmount { sign: Sign::Plus, magnitude },
        }
    }

    /// Whether the amount is below zero.
    pub fn is_negative(&self) -> (r: bool)
        ensures
            r == (self@ < 0),
    {
        proof {
            use_type_invariant(self);
            lemma_shortest_positive(self.magnitude@);
        }
        match self.sign {
            Sign::Minus => true,
            _ => false,
        }
    }

    /// The magnitude of the amount in its shortest spelling, least
    /// significant byte first.
    pub fn magnitude(&self) -> (r: &[u8])
        ensures
            shortest(r@),
            magnitude_value(r@) == if self@ < 0 {
                -self@
            } else {
                self@
            },
    {
        proof {
            use_type_invariant(self);
            lemma_shortest_positive(self.magnitude@);
        }
        self.magnitude.as_slice()
    }

    /// The amount of `atto` smallest units.
    pub fn from_atto(atto: u64) -> (r: Self)
        ensures
            r.well_formed(),
            r@ == atto,
    {
        let mut magnitude: Vec<u8> = Vec::new();
        let mut rest: u64 = atto;
        let ghost mut scale: int = 1;
        let ghost mut low: int = 0;
        proof {
            assert forall|tail: Seq<u8>| #[trigger]
                magnitude_value(magnitude@ + tail) == low + scale * magnitude_value(tail) by {
                assert(magnitude@ + tail =~= tail);
            }
        }
        while rest > 0
            invariant
                scale >= 1,
                low >= 0,
                atto == low + scale * rest,
                forall|tail: Seq<u8>| #[trigger]
                    magnitude_value(magnitude@ + tail) == low + scale * magnitude_value(tail),
            decreases rest,
        {
            let byte: u8 = (rest % 256) as u8;
            proof {
                let before = magnitude@;
                let after = before.push(byte);
                assert forall|tail: Seq<u8>| #[trigger]
                    magnitude_value(after + tail) == (low + scale * byte) + (scale * 256)
                        * magnitude_value(tail) by {
                    let joined = seq![byte] + tail;
                    assert(after + tail =~= before + joined);
                    assert(joined.skip(1) =~= tail);
                    assert(magnitude_value(joined) == byte + 256 * magnitude_value(tail));
                    let t = magnitude_value(tail) as int;
                    assert(scale * (byte + 256 * t) == scale * byte + (scale * 256) * t)
                        by (nonlinear_arith);
                }
                let q = (rest / 256) as int;
                assert(scale * (byte + 256 * q) == scale * byte + (scale * 256) * q)
                    by (nonlinear_arith);
                assert(scale * byte >= 0) by (nonlinear_arith)
                    requires
                        scale >= 1,
                        byte >= 0,
                ;
                low = low + scale * byte;
                scale = scale * 256;
            }
            magnitude.push(byte);
            rest = rest / 256;
        }
        proof {
            assert(magnitude@ + Seq::<u8>::empty() =~= magnitude@);
            assert(magnitude_value(Seq::<u8>::empty()) == 0);
            assert(scale * 0 == 0);
        }
        Self::from_parts(Sign::Plus, magnitude)
    }

    /// The amount times `factor`.
    pub fn times(&self, factor: u64) -> (r: Self)
        ensures
            r.well_formed(),
            r@ == self@ * factor,
    {
        let (sign, magnitude) = product(self.sign, self.magnitude.as_slice(), factor);
        Self::from_parts(sign, magnitude)
    }

    /// The sum of the amount and `other`.
    pub fn plus(&self, other: &TokenAmount) -> (r: Self)
        ensures
            r.well_formed(),
            r@ == self@ + other@,
    {
        let (sign, magnitude) = sum(
            self.sign,
            self.magnitude.as_slice(),
            other.sign,
            other.magnitude.as_slice(),
        );
        Self::from_parts(sign, magnitude)
    }
}

/// Whether two signs are the same.
fn same_sign(a: Sign, b: Sign) -> (r: bool)
    ensures
        r == (a == b),
{
    match (a, b) {
        (Sign::Minus, Sign::Minus) => true,
        (Sign::NoSign, Sign::NoSign) => true,
        (Sign::Plus, Sign::Plus) => true,
        _ => false,
    }
}

impl PartialEq for TokenAmount {
    fn eq(&self, other: &Self) -> (r: bool) {
        proof {
            use_type_invariant(self);
            use_type_invariant(other);
            lemma_shortest_positive(self.magnitude@);
            lemma_shortest_positive(other.magnitude@);
            if self@ == other@ {
                lemma_shortest_unique(self.magnitude@, other.magnitude@);
            }
        }
        same_sign(self.sign, other.sign) && bytes_equal(
            self.magnitude.as_slice(),
            other.magnitude.as_slice(),
        )
    }
}

impl PartialEqSpecImpl for TokenAmount {
    open spec fn obeys_eq_spec() -> bool {
        true
    }

    open spec fn eq_spec(&self, other: &Self) -> bool {
        self@ == other@
    }
}

} // verus!
