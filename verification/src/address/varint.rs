//! Unsigned varints (LEB128): seven bits to a byte, least significant group
//! first, the top bit of a byte set when another byte follows.
//!
//! The encoder and the decoder are those of the `unsigned-varint` crate. This
//! module states what they compute and proves how the two relate.

use vstd::prelude::*;

verus! {

/// The encoding of `v`: its low seven bits, with the top bit set if more
/// follows, then the encoding of the rest.
pub open spec fn varint_encoding(v: nat) -> Seq<u8>
    decreases v,
{
    if v < 128 {
        seq![v as u8]
    } else {
        seq![(128 + v % 128) as u8] + varint_encoding(v / 128)
    }
}

/// Where the first varint in `buf` ends: the index of the first byte whose top
/// bit is clear, or the length of `buf` if there is none.
pub open spec fn varint_stop(buf: Seq<u8>) -> int
    decreases buf.len(),
{
    if buf.len() == 0 || buf[0] < 128 {
        0
    } else {
        1 + varint_stop(buf.skip(1))
    }
}

/// The number that the seven-bit groups of `buf` spell, first byte least
/// significant.
pub open spec fn varint_sum(buf: Seq<u8>) -> nat
    decreases buf.len(),
{
    if buf.len() == 0 {
        0
    } else {
        (buf[0] % 128) as nat + 128 * varint_sum(buf.skip(1))
    }
}

/// Whether the decoder accepts the start of `buf` as a 64-bit number: the
/// number ends within `buf` and within ten bytes, and its last byte is not a
/// zero that could have been left out.
pub open spec fn varint_accepted(buf: Seq<u8>) -> bool {
    let stop = varint_stop(buf);
    &&& stop < buf.len()
    &&& stop <= 9
    &&& stop > 0 ==> buf[stop] != 0
}

/// The number that the decoder reads from the start of `buf`. The tenth byte
/// can carry bits beyond the sixty-fourth; the decoder drops them.
pub open spec fn varint_value(buf: Seq<u8>) -> u64 {
    (varint_sum(buf.take(varint_stop(buf) + 1)) % 0x1_0000_0000_0000_0000) as u64
}

/// What follows the first varint in `buf`.
pub open spec fn varint_rest(buf: Seq<u8>) -> Seq<u8> {
    buf.skip(varint_stop(buf) + 1)
}

/// One more than the greatest number that `k` seven-bit groups can spell.
pub open spec fn varint_limit(k: nat) -> nat
    decreases k,
{
    if k == 0 {
        1
    } else {
        128 * varint_limit((k - 1) as nat)
    }
}

/// A number below `varint_limit(k)` is encoded in at most `k` bytes, and any
/// number in at least one.
pub proof fn lemma_encoding_len(v: nat, k: nat)
    requires
        k >= 1,
        v < varint_limit(k),
    ensures
        1 <= varint_encoding(v).len() <= k,
    decreases k,
{
    if v >= 128 {
        assert(varint_limit(1) == 128) by {
            reveal_with_fuel(varint_limit, 2);
        }
        assert(k >= 2);
        lemma_encoding_len(v / 128, (k - 1) as nat);
    }
}

/// The decoder reads back what the encoder wrote, whatever follows it: it
/// accepts the bytes, reads the number encoded, and leaves what follows.
pub proof fn lemma_decode_encoding(v: u64, rest: Seq<u8>)
    ensures
        varint_accepted(varint_encoding(v as nat) + rest),
        varint_value(varint_encoding(v as nat) + rest) == v,
        varint_rest(varint_encoding(v as nat) + rest) == rest,
        1 <= varint_encoding(v as nat).len() <= 10,
{
    let encoding = varint_encoding(v as nat);
    let buf = encoding + rest;
    lemma_encoding_shape(v as nat, rest);
    assert(varint_limit(10) == 0x40_0000_0000_0000_0000) by {
        reveal_with_fuel(varint_limit, 11);
    }
    lemma_encoding_len(v as nat, 10);
    assert(buf.take(encoding.len() as int) =~= encoding);
    assert(buf.skip(encoding.len() as int) =~= rest);
}

/// The shape of an encoding followed by other bytes: it stops at the last
/// byte of the encoding, which is not zero unless it is the only one, and its
/// seven-bit groups spell the number.
pub proof fn lemma_encoding_shape(v: nat, rest: Seq<u8>)
    ensures
        varint_stop(varint_encoding(v) + rest) == varint_encoding(v).len() - 1,
        varint_encoding(v).len() >= 1,
        varint_encoding(v).last() < 128,
        v > 0 ==> varint_encoding(v).last() != 0,
        varint_sum(varint_encoding(v)) == v,
    decreases v,
{
    let encoding = varint_encoding(v);
    let buf = encoding + rest;
    if v < 128 {
        assert(buf[0] == v);
        assert(encoding.skip(1) =~= Seq::<u8>::empty());
        assert(varint_sum(encoding.skip(1)) == 0);
    } else {
        let tail = varint_encoding(v / 128);
        lemma_encoding_shape(v / 128, rest);
        assert(buf.skip(1) =~= tail + rest);
        assert(encoding.skip(1) =~= tail);
        assert(buf[0] == 128 + v % 128);
        assert(encoding[0] % 128 == v % 128);
        assert(encoding.last() == tail.last());
    }
}

#[verifier::external_type_specification]
#[verifier::external_body]
pub struct ExDecodeError(unsigned_varint::decode::Error);

/// Trusted: `unsigned_varint::encode::u64`, on a fresh buffer from
/// `unsigned_varint::encode::u64_buffer`. The contract claims that the bytes
/// returned are the LEB128 form of `v` as `varint_encoding` spells it out.
#[verifier::external_body]
pub(crate) fn encode_u64(v: u64) -> (bytes: Vec<u8>)
    ensures
        bytes@ == varint_encoding(v as nat),
{
    unsigned_varint::encode::u64(v, &mut unsigned_varint::encode::u64_buffer()).to_vec()
}

/// Trusted: `unsigned_varint::decode::u64`. The contract claims that it
/// succeeds exactly on the buffers that `varint_accepted` describes, and then
/// returns the number read and the bytes after it. Which of its three errors
/// it gives otherwise is not stated.
#[verifier::external_body]
pub(crate) fn decode_u64<'a>(buf: &'a [u8]) -> (r: Result<
    (u64, &'a [u8]),
    unsigned_varint::decode::Error,
>)
    ensures
        r is Ok <==> varint_accepted(buf@),
        r matches Ok((v, rest)) ==> v == varint_value(buf@) && rest@ == varint_rest(buf@),
{
    unsigned_varint::decode::u64(buf)
}

} // verus!
