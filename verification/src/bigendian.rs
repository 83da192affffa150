//! Big-endian integers, as a model and as read by `bitstream_io`.

use bitstream_io::{BigEndian, BitRead, BitReader};
use vstd::arithmetic::power2::{lemma2_to64, lemma_pow2_adds, pow2};
use vstd::prelude::*;

verus! {

/// The number that `bytes` spell in base 256, most significant byte first.
pub open spec fn be_value(bytes: Seq<u8>) -> nat
    decreases bytes.len(),
{
    if bytes.len() == 0 {
        0
    } else {
        be_value(bytes.drop_last()) * 256 + bytes.last() as nat
    }
}

/// The two's-complement reading of the `bits`-bit pattern `value`.
pub open spec fn twos_complement(value: nat, bits: nat) -> int
    recommends
        bits > 0,
        value < pow2(bits),
{
    if value >= pow2((bits - 1) as nat) {
        value - pow2(bits)
    } else {
        value as int
    }
}

/// How many zero bits stand before the first one bit of `byte`, counted
/// from the most significant bit; 8 when there is no one bit.
pub open spec fn leading_zeros(byte: u8) -> nat {
    if byte >= 0x80 {
        0
    } else if byte >= 0x40 {
        1
    } else if byte >= 0x20 {
        2
    } else if byte >= 0x10 {
        3
    } else if byte >= 0x08 {
        4
    } else if byte >= 0x04 {
        5
    } else if byte >= 0x02 {
        6
    } else if byte >= 0x01 {
        7
    } else {
        8
    }
}

/// A big-endian number is its first byte, shifted past the others, plus
/// the number that the others spell.
pub proof fn lemma_be_value_first(bytes: Seq<u8>)
    requires
        bytes.len() > 0,
    ensures
        be_value(bytes) == bytes[0] * pow2((8 * (bytes.len() - 1)) as nat) + be_value(
            bytes.drop_first(),
        ),
    decreases bytes.len(),
{
    lemma2_to64();
    if bytes.len() == 1 {
        assert(bytes.drop_last() =~= Seq::<u8>::empty());
        assert(bytes.drop_first() =~= Seq::<u8>::empty());
        assert(be_value(bytes.drop_last()) == 0);
        assert(be_value(bytes.drop_first()) == 0);
        assert(be_value(bytes) == bytes[0] as nat);
        assert(pow2(0) == 1);
        assert(bytes[0] * pow2(0) == bytes[0] as nat);
    } else {
        let init = bytes.drop_last();
        lemma_be_value_first(init);
        assert(init.drop_first() =~= bytes.drop_first().drop_last());
        assert(init[0] == bytes[0]);
        assert(bytes.drop_first().last() == bytes.last());
        let k = (8 * (bytes.len() - 2)) as nat;
        let rest = bytes.drop_first();
        let b0 = bytes[0] as int;
        let low = be_value(init.drop_first()) as int;
        lemma_pow2_adds(k, 8);
        assert(pow2(k) * 256 == pow2(k + 8));
        assert(be_value(rest) == be_value(rest.drop_last()) * 256 + rest.last() as nat);
        assert(be_value(bytes) == be_value(init) * 256 + bytes.last() as nat);
        assert(be_value(init) == b0 * pow2(k) + low);
        assert((b0 * pow2(k) + low) * 256 == b0 * (pow2(k) * 256) + low * 256)
            by (nonlinear_arith);
        assert((8 * (bytes.len() - 1)) as nat == k + 8);
        assert(be_value(bytes) == b0 * pow2(k + 8) + (low * 256 + bytes.last() as nat));
        assert(be_value(rest) == low * 256 + bytes.last() as nat);
    }
}

/// A big-endian number of `n` bytes is below 2^(8n).
pub proof fn lemma_be_value_bound(bytes: Seq<u8>)
    ensures
        be_value(bytes) < pow2(8 * bytes.len()),
    decreases bytes.len(),
{
    lemma2_to64();
    if bytes.len() > 0 {
        lemma_be_value_bound(bytes.drop_last());
        let k = (8 * (bytes.len() - 1)) as nat;
        lemma_pow2_adds(k, 8);
        assert(be_value(bytes.drop_last()) * 256 + 255 < pow2(k) * 256) by (nonlinear_arith)
            requires
                be_value(bytes.drop_last()) < pow2(k),
        ;
    }
}

/// Calls `bitstream_io::BitRead::read_unary1` on a big-endian `BitReader`
/// over the one byte `first`.
///
/// Trusted: the call counts the zero bits before the first one bit. With
/// no one bit in the byte it runs off the end of its input and fails.
#[verifier::external_body]
pub(crate) fn unary_prefix(first: u8) -> (zeros: Option<u32>)
    ensures
        first == 0 ==> zeros is None,
        first != 0 ==> zeros == Some(leading_zeros(first) as u32),
{
    let bytes = [first];
    BitReader::endian(&bytes[..], BigEndian).read_unary1().ok()
}

/// Calls `bitstream_io::BitRead::read::<u64>` for `bits` bits on a
/// big-endian `BitReader` over `bytes`.
///
/// Trusted: the call fails exactly when `bytes` holds fewer than `bits`
/// bits, and otherwise returns the first `bits / 8` bytes read as one
/// big-endian number.
#[verifier::external_body]
pub(crate) fn read_unsigned(bytes: &[u8], bits: u32) -> (value: Option<u64>)
    requires
        bits <= 64,
        bits % 8 == 0,
    ensures
        value is Some <==> bits <= 8 * bytes@.len(),
        value is Some ==> value.unwrap() == be_value(bytes@.take(bits as int / 8)),
{
    BitReader::endian(bytes, BigEndian).read::<u64>(bits).ok()
}

/// Calls `bitstream_io::BitRead::read_signed::<i64>` for `bits` bits on a
/// big-endian `BitReader` over `bytes`.
///
/// Trusted: the call fails exactly when `bytes` holds fewer than `bits`
/// bits, and otherwise returns the first `bits / 8` bytes read as one
/// big-endian two's-complement number of `bits` bits.
#[verifier::external_body]
pub(crate) fn read_signed(bytes: &[u8], bits: u32) -> (value: Option<i64>)
    requires
        0 < bits <= 64,
        bits % 8 == 0,
    ensures
        value is Some <==> bits <= 8 * bytes@.len(),
        value is Some ==> value.unwrap() == twos_complement(
            be_value(bytes@.take(bits as int / 8)),
            bits as nat,
        ),
{
    BitReader::endian(bytes, BigEndian).read_signed::<i64>(bits).ok()
}

} // verus!
