//! The little-endian encoding of a 64-bit unsigned integer.
//!
//! Byte `i` of the encoding carries the digit of weight `256^i`. Both the
//! stored record and the instruction payload use this encoding for their one
//! field, at offset zero.

use vstd::arithmetic::div_mod::{lemma_div_denominator, lemma_fundamental_div_mod};
use vstd::prelude::*;

verus! {

/// Number of bytes that the encoding of a `u64` occupies.
pub const WIDTH: usize = 8;

/// The number whose little-endian digits are the first eight bytes of `bytes`.
pub open spec fn le_value(bytes: Seq<u8>) -> nat
    recommends
        bytes.len() >= 8,
{
    (bytes[0] as nat) + 0x100 * (bytes[1] as nat) + 0x1_0000 * (bytes[2] as nat) + 0x100_0000 * (
    bytes[3] as nat) + 0x1_0000_0000 * (bytes[4] as nat) + 0x100_0000_0000 * (bytes[5] as nat)
        + 0x1_0000_0000_0000 * (bytes[6] as nat) + 0x100_0000_0000_0000 * (bytes[7] as nat)
}

/// The `u64` that the first eight bytes of `bytes` encode.
pub open spec fn le_u64(bytes: Seq<u8>) -> u64
    recommends
        bytes.len() >= 8,
{
    le_value(bytes) as u64
}

/// The eight bytes that encode `value`, least significant first.
pub open spec fn le_bytes(value: u64) -> Seq<u8> {
    seq![
        (value % 0x100) as u8,
        (value / 0x100 % 0x100) as u8,
        (value / 0x1_0000 % 0x100) as u8,
        (value / 0x100_0000 % 0x100) as u8,
        (value / 0x1_0000_0000 % 0x100) as u8,
        (value / 0x100_0000_0000 % 0x100) as u8,
        (value / 0x1_0000_0000_0000 % 0x100) as u8,
        (value / 0x100_0000_0000_0000 % 0x100) as u8,
    ]
}

/// Eight bytes never encode a number that a `u64` cannot hold.
pub proof fn lemma_le_value_fits(bytes: Seq<u8>)
    ensures
        le_value(bytes) <= u64::MAX,
        le_u64(bytes) == le_value(bytes),
{
}

/// The digit of weight `weight` in `value`, and what stands above it.
proof fn lemma_split_digit(value: int, weight: int)
    requires
        0 <= value,
        0 < weight,
    ensures
        value / weight == value / weight % 0x100 + 0x100 * (value / (weight * 0x100)),
{
    lemma_div_denominator(value, weight, 0x100);
    lemma_fundamental_div_mod(value / weight, 0x100);
}

/// A number written as a digit below a multiple of 256 has that digit, and
/// the multiplier stands above it.
proof fn lemma_join_digit(value: int, weight: int, digit: int, above: int)
    requires
        0 <= value,
        0 < weight,
        0 <= digit < 0x100,
        0 <= above,
        value / weight == digit + 0x100 * above,
    ensures
        value / weight % 0x100 == digit,
        value / (weight * 0x100) == above,
{
    lemma_div_denominator(value, weight, 0x100);
}

/// Decoding undoes encoding: every `u64` is read back from its own bytes.
pub proof fn lemma_decode_encode(value: u64)
    ensures
        le_bytes(value).len() == 8,
        le_u64(le_bytes(value)) == value,
{
    let v = value as int;
    lemma_split_digit(v, 1);
    lemma_split_digit(v, 0x100);
    lemma_split_digit(v, 0x1_0000);
    lemma_split_digit(v, 0x100_0000);
    lemma_split_digit(v, 0x1_0000_0000);
    lemma_split_digit(v, 0x100_0000_0000);
    lemma_split_digit(v, 0x1_0000_0000_0000);
    lemma_split_digit(v, 0x100_0000_0000_0000);
    assert(v / 0x1_0000_0000_0000_0000 == 0);
}

/// Encoding undoes decoding: the bytes of the decoded number are the eight
/// bytes it was read from.
pub proof fn lemma_encode_decode(bytes: Seq<u8>)
    requires
        bytes.len() >= 8,
    ensures
        le_bytes(le_u64(bytes)) == bytes.take(8),
{
    let v = le_u64(bytes) as int;
    let r7 = bytes[7] as int;
    let r6 = bytes[6] as int + 0x100 * r7;
    let r5 = bytes[5] as int + 0x100 * r6;
    let r4 = bytes[4] as int + 0x100 * r5;
    let r3 = bytes[3] as int + 0x100 * r4;
    let r2 = bytes[2] as int + 0x100 * r3;
    let r1 = bytes[1] as int + 0x100 * r2;
    assert(v == bytes[0] as int + 0x100 * r1);
    lemma_join_digit(v, 1, bytes[0] as int, r1);
    lemma_join_digit(v, 0x100, bytes[1] as int, r2);
    lemma_join_digit(v, 0x1_0000, bytes[2] as int, r3);
    lemma_join_digit(v, 0x100_0000, bytes[3] as int, r4);
    lemma_join_digit(v, 0x1_0000_0000, bytes[4] as int, r5);
    lemma_join_digit(v, 0x100_0000_0000, bytes[5] as int, r6);
    lemma_join_digit(v, 0x1_0000_0000_0000, bytes[6] as int, r7);
    assert(v / 0x100_0000_0000_0000 % 0x100 == bytes[7] as int);
    assert(le_bytes(le_u64(bytes)) =~= bytes.take(8));
}

/// Reads the `u64` encoded in the first eight bytes of `src`.
pub fn read_u64(src: &[u8]) -> (value: u64)
    requires
        src@.len() >= 8,
    ensures
        value == le_u64(src@),
{
    let b0: u64 = src[0] as u64;
    let b1: u64 = src[1] as u64;
    let b2: u64 = src[2] as u64;
    let b3: u64 = src[3] as u64;
    let b4: u64 = src[4] as u64;
    let b5: u64 = src[5] as u64;
    let b6: u64 = src[6] as u64;
    let b7: u64 = src[7] as u64;
    b0 + 0x100 * b1 + 0x1_0000 * b2 + 0x100_0000 * b3 + 0x1_0000_0000 * b4 + 0x100_0000_0000 * b5
        + 0x1_0000_0000_0000 * b6 + 0x100_0000_0000_0000 * b7
}

/// Writes the encoding of `value` over the first eight bytes of `dst` and
/// leaves every later byte as it was.
pub fn write_u64(value: u64, dst: &mut [u8])
    requires
        old(dst)@.len() >= 8,
    ensures
        final(dst)@ == le_bytes(value) + old(dst)@.skip(8),
{
    dst[0] = (value % 0x100) as u8;
    dst[1] = (value / 0x100 % 0x100) as u8;
    dst[2] = (value / 0x1_0000 % 0x100) as u8;
    dst[3] = (value / 0x100_0000 % 0x100) as u8;
    dst[4] = (value / 0x1_0000_0000 % 0x100) as u8;
    dst[5] = (value / 0x100_0000_0000 % 0x100) as u8;
    dst[6] = (value / 0x1_0000_0000_0000 % 0x100) as u8;
    dst[7] = (value / 0x100_0000_0000_0000 % 0x100) as u8;
}

} // verus!
