//! Byte-level building blocks of the wire format: fixed-width little-endian
//! integers, big-endian 128-bit identifiers and length-prefixed byte strings.
//!
//! The layout is the one of bincode's default configuration (fixed-width
//! integers, little endian, `u64` length prefixes, `u32` variant tags), so that
//! a message framed here can be read by any peer that speaks that format.

use vstd::prelude::*;

verus! {

/// The four little-endian bytes of `x`.
pub open spec fn le_u32(x: u32) -> Seq<u8> {
    seq![
        (x & 0xff) as u8,
        ((x >> 8u32) & 0xff) as u8,
        ((x >> 16u32) & 0xff) as u8,
        ((x >> 24u32) & 0xff) as u8,
    ]
}

/// The `u32` whose little-endian bytes are the first four of `b`.
pub open spec fn u32_of_le(b: Seq<u8>) -> u32 {
    (b[0] as u32) | ((b[1] as u32) << 8u32) | ((b[2] as u32) << 16u32) | ((b[3] as u32) << 24u32)
}

pub proof fn lemma_u32_le_roundtrip(x: u32)
    ensures
        le_u32(x).len() == 4,
        u32_of_le(le_u32(x)) == x,
{
    let b0 = (x & 0xff) as u8;
    let b1 = ((x >> 8u32) & 0xff) as u8;
    let b2 = ((x >> 16u32) & 0xff) as u8;
    let b3 = ((x >> 24u32) & 0xff) as u8;
    assert((b0 as u32) | ((b1 as u32) << 8u32) | ((b2 as u32) << 16u32) | ((b3 as u32) << 24u32) == x)
        by (bit_vector)
        requires
            b0 == (x & 0xff) as u8,
            b1 == ((x >> 8u32) & 0xff) as u8,
            b2 == ((x >> 16u32) & 0xff) as u8,
            b3 == ((x >> 24u32) & 0xff) as u8,
    ;
}


pub proof fn lemma_u32_le_canonical(b: Seq<u8>)
    requires
        b.len() == 4,
    ensures
        le_u32(u32_of_le(b)) =~= b,
{
    let (b0, b1, b2, b3) = (b[0], b[1], b[2], b[3]);
    let x = u32_of_le(b);
    assert(
        (x & 0xff) as u8 == b0 && ((x >> 8u32) & 0xff) as u8 == b1
        && ((x >> 16u32) & 0xff) as u8 == b2 && ((x >> 24u32) & 0xff) as u8 == b3
    ) by (bit_vector)
        requires
            x == (b0 as u32) | ((b1 as u32) << 8u32) | ((b2 as u32) << 16u32) | ((b3 as u32) << 24u32),
    ;
}

/// The eight little-endian bytes of `x`.
pub open spec fn le_u64(x: u64) -> Seq<u8> {
    seq![
        (x & 0xff) as u8,
        ((x >> 8u64) & 0xff) as u8,
        ((x >> 16u64) & 0xff) as u8,
        ((x >> 24u64) & 0xff) as u8,
        ((x >> 32u64) & 0xff) as u8,
        ((x >> 40u64) & 0xff) as u8,
        ((x >> 48u64) & 0xff) as u8,
        ((x >> 56u64) & 0xff) as u8,
    ]
}

/// The `u64` whose little-endian bytes are the first eight of `b`.
pub open spec fn u64_of_le(b: Seq<u8>) -> u64 {
    (b[0] as u64) | ((b[1] as u64) << 8u64) | ((b[2] as u64) << 16u64) | ((b[3] as u64) << 24u64)
        | ((b[4] as u64) << 32u64) | ((b[5] as u64) << 40u64) | ((b[6] as u64) << 48u64)
        | ((b[7] as u64) << 56u64)
}

pub proof fn lemma_u64_le_roundtrip(x: u64)
    ensures
        le_u64(x).len() == 8,
        u64_of_le(le_u64(x)) == x,
{
    let b0 = (x & 0xff) as u8;
    let b1 = ((x >> 8u64) & 0xff) as u8;
    let b2 = ((x >> 16u64) & 0xff) as u8;
    let b3 = ((x >> 24u64) & 0xff) as u8;
    let b4 = ((x >> 32u64) & 0xff) as u8;
    let b5 = ((x >> 40u64) & 0xff) as u8;
    let b6 = ((x >> 48u64) & 0xff) as u8;
    let b7 = ((x >> 56u64) & 0xff) as u8;
    assert((b0 as u64) | ((b1 as u64) << 8u64) | ((b2 as u64) << 16u64) | ((b3 as u64) << 24u64)
        | ((b4 as u64) << 32u64) | ((b5 as u64) << 40u64) | ((b6 as u64) << 48u64)
        | ((b7 as u64) << 56u64) == x)
        by (bit_vector)
        requires
            b0 == (x & 0xff) as u8,
            b1 == ((x >> 8u64) & 0xff) as u8,
            b2 == ((x >> 16u64) & 0xff) as u8,
            b3 == ((x >> 24u64) & 0xff) as u8,
            b4 == ((x >> 32u64) & 0xff) as u8,
            b5 == ((x >> 40u64) & 0xff) as u8,
            b6 == ((x >> 48u64) & 0xff) as u8,
            b7 == ((x >> 56u64) & 0xff) as u8,
    ;
}

pub proof fn lemma_u64_le_canonical(b: Seq<u8>)
    requires
        b.len() == 8,
    ensures
        le_u64(u64_of_le(b)) =~= b,
{
    let (b0, b1, b2, b3, b4, b5, b6, b7) = (b[0], b[1], b[2], b[3], b[4], b[5], b[6], b[7]);
    let x = u64_of_le(b);
    assert(
        (x & 0xff) as u8 == b0 && ((x >> 8u64) & 0xff) as u8 == b1
        && ((x >> 16u64) & 0xff) as u8 == b2 && ((x >> 24u64) & 0xff) as u8 == b3
        && ((x >> 32u64) & 0xff) as u8 == b4 && ((x >> 40u64) & 0xff) as u8 == b5
        && ((x >> 48u64) & 0xff) as u8 == b6 && ((x >> 56u64) & 0xff) as u8 == b7
    ) by (bit_vector)
        requires
            x == (b0 as u64) | ((b1 as u64) << 8u64) | ((b2 as u64) << 16u64) | ((b3 as u64) << 24u64)
                | ((b4 as u64) << 32u64) | ((b5 as u64) << 40u64) | ((b6 as u64) << 48u64)
                | ((b7 as u64) << 56u64),
    ;
}


/// The bytes of `le_u32(x)` are the base-256 digits of `x`, least significant
/// first.
pub proof fn lemma_le_u32_digits(x: u32)
    ensures
        le_u32(x).len() == 4,
        le_u32(x)[0] == x % 0x100,
        le_u32(x)[1] == (x / 0x100) % 0x100,
        le_u32(x)[2] == (x / 0x1_0000) % 0x100,
        le_u32(x)[3] == (x / 0x100_0000) % 0x100,
{
    assert(
        (x & 0xff) as u8 == x % 0x100
        && ((x >> 8u32) & 0xff) as u8 == (x / 0x100) % 0x100
        && ((x >> 16u32) & 0xff) as u8 == (x / 0x1_0000) % 0x100
        && ((x >> 24u32) & 0xff) as u8 == (x / 0x100_0000) % 0x100
    ) by (bit_vector);
}

/// `u32_of_le` reads the first four bytes as base-256 digits, least
/// significant first.
pub proof fn lemma_u32_of_le_value(b: Seq<u8>)
    requires
        b.len() >= 4,
    ensures
        u32_of_le(b) == b[0] + b[1] * 0x100 + b[2] * 0x1_0000 + b[3] * 0x100_0000,
{
    let (b0, b1, b2, b3) = (b[0], b[1], b[2], b[3]);
    assert((b0 as u32) | ((b1 as u32) << 8u32) | ((b2 as u32) << 16u32) | ((b3 as u32) << 24u32)
        == b0 + b1 * 0x100 + b2 * 0x1_0000 + b3 * 0x100_0000) by (bit_vector);
}

/// The bytes of `le_u64(x)` are the base-256 digits of `x`, least significant
/// first.
pub proof fn lemma_le_u64_digits(x: u64)
    ensures
        le_u64(x).len() == 8,
        le_u64(x)[0] == x % 0x100,
        le_u64(x)[1] == (x / 0x100) % 0x100,
        le_u64(x)[2] == (x / 0x1_0000) % 0x100,
        le_u64(x)[3] == (x / 0x100_0000) % 0x100,
        le_u64(x)[4] == (x / 0x1_0000_0000) % 0x100,
        le_u64(x)[5] == (x / 0x100_0000_0000) % 0x100,
        le_u64(x)[6] == (x / 0x1_0000_0000_0000) % 0x100,
        le_u64(x)[7] == (x / 0x100_0000_0000_0000) % 0x100,
{
    assert(
        (x & 0xff) as u8 == x % 0x100
        && ((x >> 8u64) & 0xff) as u8 == (x / 0x100) % 0x100
        && ((x >> 16u64) & 0xff) as u8 == (x / 0x1_0000) % 0x100
        && ((x >> 24u64) & 0xff) as u8 == (x / 0x100_0000) % 0x100
        && ((x >> 32u64) & 0xff) as u8 == (x / 0x1_0000_0000) % 0x100
        && ((x >> 40u64) & 0xff) as u8 == (x / 0x100_0000_0000) % 0x100
        && ((x >> 48u64) & 0xff) as u8 == (x / 0x1_0000_0000_0000) % 0x100
        && ((x >> 56u64) & 0xff) as u8 == (x / 0x100_0000_0000_0000) % 0x100
    ) by (bit_vector);
}

/// `u64_of_le` reads the first eight bytes as base-256 digits, least
/// significant first.
pub proof fn lemma_u64_of_le_value(b: Seq<u8>)
    requires
        b.len() >= 8,
    ensures
        u64_of_le(b) == b[0] + b[1] * 0x100 + b[2] * 0x1_0000 + b[3] * 0x100_0000
            + b[4] * 0x1_0000_0000 + b[5] * 0x100_0000_0000 + b[6] * 0x1_0000_0000_0000
            + b[7] * 0x100_0000_0000_0000,
{
    let (b0, b1, b2, b3, b4, b5, b6, b7) = (b[0], b[1], b[2], b[3], b[4], b[5], b[6], b[7]);
    assert((b0 as u64) | ((b1 as u64) << 8u64) | ((b2 as u64) << 16u64) | ((b3 as u64) << 24u64)
        | ((b4 as u64) << 32u64) | ((b5 as u64) << 40u64) | ((b6 as u64) << 48u64)
        | ((b7 as u64) << 56u64)
        == b0 + b1 * 0x100 + b2 * 0x1_0000 + b3 * 0x100_0000 + b4 * 0x1_0000_0000
            + b5 * 0x100_0000_0000 + b6 * 0x1_0000_0000_0000 + b7 * 0x100_0000_0000_0000)
        by (bit_vector);
}

/// The sixteen big-endian bytes of `x` (most significant byte first).
pub open spec fn be_u128(x: u128) -> Seq<u8> {
    seq![
        ((x >> 120u128) & 0xff) as u8,
        ((x >> 112u128) & 0xff) as u8,
        ((x >> 104u128) & 0xff) as u8,
        ((x >> 96u128) & 0xff) as u8,
        ((x >> 88u128) & 0xff) as u8,
        ((x >> 80u128) & 0xff) as u8,
        ((x >> 72u128) & 0xff) as u8,
        ((x >> 64u128) & 0xff) as u8,
        ((x >> 56u128) & 0xff) as u8,
        ((x >> 48u128) & 0xff) as u8,
        ((x >> 40u128) & 0xff) as u8,
        ((x >> 32u128) & 0xff) as u8,
        ((x >> 24u128) & 0xff) as u8,
        ((x >> 16u128) & 0xff) as u8,
        ((x >> 8u128) & 0xff) as u8,
        (x & 0xff) as u8,
    ]
}

/// The `u128` whose big-endian bytes are the first sixteen of `b`.
pub open spec fn u128_of_be(b: Seq<u8>) -> u128 {
    ((b[0] as u128) << 120u128)
        | ((b[1] as u128) << 112u128)
        | ((b[2] as u128) << 104u128)
        | ((b[3] as u128) << 96u128)
        | ((b[4] as u128) << 88u128)
        | ((b[5] as u128) << 80u128)
        | ((b[6] as u128) << 72u128)
        | ((b[7] as u128) << 64u128)
        | ((b[8] as u128) << 56u128)
        | ((b[9] as u128) << 48u128)
        | ((b[10] as u128) << 40u128)
        | ((b[11] as u128) << 32u128)
        | ((b[12] as u128) << 24u128)
        | ((b[13] as u128) << 16u128)
        | ((b[14] as u128) << 8u128)
        | (b[15] as u128)
}

pub proof fn lemma_u128_be_roundtrip(x: u128)
    ensures
        be_u128(x).len() == 16,
        u128_of_be(be_u128(x)) == x,
{
    let b0 = ((x >> 120u128) & 0xff) as u8;
    let b1 = ((x >> 112u128) & 0xff) as u8;
    let b2 = ((x >> 104u128) & 0xff) as u8;
    let b3 = ((x >> 96u128) & 0xff) as u8;
    let b4 = ((x >> 88u128) & 0xff) as u8;
    let b5 = ((x >> 80u128) & 0xff) as u8;
    let b6 = ((x >> 72u128) & 0xff) as u8;
    let b7 = ((x >> 64u128) & 0xff) as u8;
    let b8 = ((x >> 56u128) & 0xff) as u8;
    let b9 = ((x >> 48u128) & 0xff) as u8;
    let b10 = ((x >> 40u128) & 0xff) as u8;
    let b11 = ((x >> 32u128) & 0xff) as u8;
    let b12 = ((x >> 24u128) & 0xff) as u8;
    let b13 = ((x >> 16u128) & 0xff) as u8;
    let b14 = ((x >> 8u128) & 0xff) as u8;
    let b15 = (x & 0xff) as u8;
    assert(((b0 as u128) << 120u128)
        | ((b1 as u128) << 112u128)
        | ((b2 as u128) << 104u128)
        | ((b3 as u128) << 96u128)
        | ((b4 as u128) << 88u128)
        | ((b5 as u128) << 80u128)
        | ((b6 as u128) << 72u128)
        | ((b7 as u128) << 64u128)
        | ((b8 as u128) << 56u128)
        | ((b9 as u128) << 48u128)
        | ((b10 as u128) << 40u128)
        | ((b11 as u128) << 32u128)
        | ((b12 as u128) << 24u128)
        | ((b13 as u128) << 16u128)
        | ((b14 as u128) << 8u128)
        | (b15 as u128) == x) by (bit_vector)
        requires
            b0 == ((x >> 120u128) & 0xff) as u8,
            b1 == ((x >> 112u128) & 0xff) as u8,
            b2 == ((x >> 104u128) & 0xff) as u8,
            b3 == ((x >> 96u128) & 0xff) as u8,
            b4 == ((x >> 88u128) & 0xff) as u8,
            b5 == ((x >> 80u128) & 0xff) as u8,
            b6 == ((x >> 72u128) & 0xff) as u8,
            b7 == ((x >> 64u128) & 0xff) as u8,
            b8 == ((x >> 56u128) & 0xff) as u8,
            b9 == ((x >> 48u128) & 0xff) as u8,
            b10 == ((x >> 40u128) & 0xff) as u8,
            b11 == ((x >> 32u128) & 0xff) as u8,
            b12 == ((x >> 24u128) & 0xff) as u8,
            b13 == ((x >> 16u128) & 0xff) as u8,
            b14 == ((x >> 8u128) & 0xff) as u8,
            b15 == (x & 0xff) as u8,
    ;
}

pub proof fn lemma_u128_be_canonical(b: Seq<u8>)
    requires
        b.len() == 16,
    ensures
        be_u128(u128_of_be(b)) =~= b,
{
    let b0 = b[0];
    let b1 = b[1];
    let b2 = b[2];
    let b3 = b[3];
    let b4 = b[4];
    let b5 = b[5];
    let b6 = b[6];
    let b7 = b[7];
    let b8 = b[8];
    let b9 = b[9];
    let b10 = b[10];
    let b11 = b[11];
    let b12 = b[12];
    let b13 = b[13];
    let b14 = b[14];
    let b15 = b[15];
    let x = u128_of_be(b);
    assert(((x >> 120u128) & 0xff) as u8 == b0
        && ((x >> 112u128) & 0xff) as u8 == b1
        && ((x >> 104u128) & 0xff) as u8 == b2
        && ((x >> 96u128) & 0xff) as u8 == b3
        && ((x >> 88u128) & 0xff) as u8 == b4
        && ((x >> 80u128) & 0xff) as u8 == b5
        && ((x >> 72u128) & 0xff) as u8 == b6
        && ((x >> 64u128) & 0xff) as u8 == b7
        && ((x >> 56u128) & 0xff) as u8 == b8
        && ((x >> 48u128) & 0xff) as u8 == b9
        && ((x >> 40u128) & 0xff) as u8 == b10
        && ((x >> 32u128) & 0xff) as u8 == b11
        && ((x >> 24u128) & 0xff) as u8 == b12
        && ((x >> 16u128) & 0xff) as u8 == b13
        && ((x >> 8u128) & 0xff) as u8 == b14
        && (x & 0xff) as u8 == b15) by (bit_vector)
        requires
            x == ((b0 as u128) << 120u128)
        | ((b1 as u128) << 112u128)
        | ((b2 as u128) << 104u128)
        | ((b3 as u128) << 96u128)
        | ((b4 as u128) << 88u128)
        | ((b5 as u128) << 80u128)
        | ((b6 as u128) << 72u128)
        | ((b7 as u128) << 64u128)
        | ((b8 as u128) << 56u128)
        | ((b9 as u128) << 48u128)
        | ((b10 as u128) << 40u128)
        | ((b11 as u128) << 32u128)
        | ((b12 as u128) << 24u128)
        | ((b13 as u128) << 16u128)
        | ((b14 as u128) << 8u128)
        | (b15 as u128),
    ;
}


/// The bytes of `be_u128(x)` are the base-256 digits of `x`, most significant
/// first.
pub proof fn lemma_be_u128_digits(x: u128)
    ensures
        be_u128(x).len() == 16,
        be_u128(x)[0] == (x / 0x100_0000_0000_0000_0000_0000_0000_0000) % 0x100,
        be_u128(x)[1] == (x / 0x1_0000_0000_0000_0000_0000_0000_0000) % 0x100,
        be_u128(x)[2] == (x / 0x100_0000_0000_0000_0000_0000_0000) % 0x100,
        be_u128(x)[3] == (x / 0x1_0000_0000_0000_0000_0000_0000) % 0x100,
        be_u128(x)[4] == (x / 0x100_0000_0000_0000_0000_0000) % 0x100,
        be_u128(x)[5] == (x / 0x1_0000_0000_0000_0000_0000) % 0x100,
        be_u128(x)[6] == (x / 0x100_0000_0000_0000_0000) % 0x100,
        be_u128(x)[7] == (x / 0x1_0000_0000_0000_0000) % 0x100,
        be_u128(x)[8] == (x / 0x100_0000_0000_0000) % 0x100,
        be_u128(x)[9] == (x / 0x1_0000_0000_0000) % 0x100,
        be_u128(x)[10] == (x / 0x100_0000_0000) % 0x100,
        be_u128(x)[11] == (x / 0x1_0000_0000) % 0x100,
        be_u128(x)[12] == (x / 0x100_0000) % 0x100,
        be_u128(x)[13] == (x / 0x1_0000) % 0x100,
        be_u128(x)[14] == (x / 0x100) % 0x100,
        be_u128(x)[15] == (x) % 0x100,
{
    assert(
        ((x >> 120u128) & 0xff) as u8 == (x / 0x100_0000_0000_0000_0000_0000_0000_0000) % 0x100
        && ((x >> 112u128) & 0xff) as u8 == (x / 0x1_0000_0000_0000_0000_0000_0000_0000) % 0x100
        && ((x >> 104u128) & 0xff) as u8 == (x / 0x100_0000_0000_0000_0000_0000_0000) % 0x100
        && ((x >> 96u128) & 0xff) as u8 == (x / 0x1_0000_0000_0000_0000_0000_0000) % 0x100
        && ((x >> 88u128) & 0xff) as u8 == (x / 0x100_0000_0000_0000_0000_0000) % 0x100
        && ((x >> 80u128) & 0xff) as u8 == (x / 0x1_0000_0000_0000_0000_0000) % 0x100
        && ((x >> 72u128) & 0xff) as u8 == (x / 0x100_0000_0000_0000_0000) % 0x100
        && ((x >> 64u128) & 0xff) as u8 == (x / 0x1_0000_0000_0000_0000) % 0x100
        && ((x >> 56u128) & 0xff) as u8 == (x / 0x100_0000_0000_0000) % 0x100
        && ((x >> 48u128) & 0xff) as u8 == (x / 0x1_0000_0000_0000) % 0x100
        && ((x >> 40u128) & 0xff) as u8 == (x / 0x100_0000_0000) % 0x100
        && ((x >> 32u128) & 0xff) as u8 == (x / 0x1_0000_0000) % 0x100
        && ((x >> 24u128) & 0xff) as u8 == (x / 0x100_0000) % 0x100
        && ((x >> 16u128) & 0xff) as u8 == (x / 0x1_0000) % 0x100
        && ((x >> 8u128) & 0xff) as u8 == (x / 0x100) % 0x100
        && (x & 0xff) as u8 == (x) % 0x100
    ) by (bit_vector);
}

/// `u128_of_be` reads the first sixteen bytes as base-256 digits, most
/// significant first.
pub proof fn lemma_u128_of_be_value(b: Seq<u8>)
    requires
        b.len() >= 16,
    ensures
        u128_of_be(b) == b[0] * 0x100_0000_0000_0000_0000_0000_0000_0000
            + b[1] * 0x1_0000_0000_0000_0000_0000_0000_0000
            + b[2] * 0x100_0000_0000_0000_0000_0000_0000
            + b[3] * 0x1_0000_0000_0000_0000_0000_0000
            + b[4] * 0x100_0000_0000_0000_0000_0000
            + b[5] * 0x1_0000_0000_0000_0000_0000
            + b[6] * 0x100_0000_0000_0000_0000
            + b[7] * 0x1_0000_0000_0000_0000
            + b[8] * 0x100_0000_0000_0000
            + b[9] * 0x1_0000_0000_0000
            + b[10] * 0x100_0000_0000
            + b[11] * 0x1_0000_0000
            + b[12] * 0x100_0000
            + b[13] * 0x1_0000
            + b[14] * 0x100
            + b[15],
{
    let b0 = b[0];
    let b1 = b[1];
    let b2 = b[2];
    let b3 = b[3];
    let b4 = b[4];
    let b5 = b[5];
    let b6 = b[6];
    let b7 = b[7];
    let b8 = b[8];
    let b9 = b[9];
    let b10 = b[10];
    let b11 = b[11];
    let b12 = b[12];
    let b13 = b[13];
    let b14 = b[14];
    let b15 = b[15];
    assert(((b0 as u128) << 120u128)
        | ((b1 as u128) << 112u128)
        | ((b2 as u128) << 104u128)
        | ((b3 as u128) << 96u128)
        | ((b4 as u128) << 88u128)
        | ((b5 as u128) << 80u128)
        | ((b6 as u128) << 72u128)
        | ((b7 as u128) << 64u128)
        | ((b8 as u128) << 56u128)
        | ((b9 as u128) << 48u128)
        | ((b10 as u128) << 40u128)
        | ((b11 as u128) << 32u128)
        | ((b12 as u128) << 24u128)
        | ((b13 as u128) << 16u128)
        | ((b14 as u128) << 8u128)
        | (b15 as u128)
        == b0 * 0x100_0000_0000_0000_0000_0000_0000_0000
            + b1 * 0x1_0000_0000_0000_0000_0000_0000_0000
            + b2 * 0x100_0000_0000_0000_0000_0000_0000
            + b3 * 0x1_0000_0000_0000_0000_0000_0000
            + b4 * 0x100_0000_0000_0000_0000_0000
            + b5 * 0x1_0000_0000_0000_0000_0000
            + b6 * 0x100_0000_0000_0000_0000
            + b7 * 0x1_0000_0000_0000_0000
            + b8 * 0x100_0000_0000_0000
            + b9 * 0x1_0000_0000_0000
            + b10 * 0x100_0000_0000
            + b11 * 0x1_0000_0000
            + b12 * 0x100_0000
            + b13 * 0x1_0000
            + b14 * 0x100
            + b15)
        by (bit_vector);
}

/// A byte string preceded by its length as a little-endian `u64`.
pub open spec fn framed(b: Seq<u8>) -> Seq<u8> {
    le_u64(b.len() as u64) + b
}

/// A framed byte string is its length in eight little-endian bytes (base-256
/// digits, least significant first), then the string itself.
pub proof fn lemma_framed(b: Seq<u8>)
    requires
        b.len() <= u64::MAX,
    ensures
        framed(b).len() == b.len() + 8,
        framed(b)[0] == b.len() % 0x100,
        framed(b)[1] == (b.len() / 0x100) % 0x100,
        framed(b)[2] == (b.len() / 0x1_0000) % 0x100,
        framed(b)[3] == (b.len() / 0x100_0000) % 0x100,
        framed(b)[4] == (b.len() / 0x1_0000_0000) % 0x100,
        framed(b)[5] == (b.len() / 0x100_0000_0000) % 0x100,
        framed(b)[6] == (b.len() / 0x1_0000_0000_0000) % 0x100,
        framed(b)[7] == (b.len() / 0x100_0000_0000_0000) % 0x100,
        framed(b).skip(8) == b,
{
    lemma_le_u64_digits(b.len() as u64);
    assert(framed(b).skip(8) =~= b);
}

/// Reads a little-endian `u32` off the front of `s`; `None` when `s` is too short.
pub open spec fn parse_u32(s: Seq<u8>) -> Option<(u32, Seq<u8>)> {
    if s.len() >= 4 {
        Some((u32_of_le(s.take(4)), s.skip(4)))
    } else {
        None
    }
}

/// Reads a little-endian `u64` off the front of `s`; `None` when `s` is too short.
pub open spec fn parse_u64(s: Seq<u8>) -> Option<(u64, Seq<u8>)> {
    if s.len() >= 8 {
        Some((u64_of_le(s.take(8)), s.skip(8)))
    } else {
        None
    }
}

/// Reads a length-prefixed byte string off the front of `s`; `None` when the
/// prefix is missing or announces more bytes than follow it.
pub open spec fn parse_framed(s: Seq<u8>) -> Option<(Seq<u8>, Seq<u8>)> {
    match parse_u64(s) {
        Some((n, rest)) => if n <= rest.len() {
            Some((rest.take(n as int), rest.skip(n as int)))
        } else {
            None
        },
        None => None,
    }
}

pub proof fn lemma_parse_u32(x: u32, rest: Seq<u8>)
    ensures
        parse_u32(le_u32(x) + rest) == Some((x, rest)),
{
    lemma_u32_le_roundtrip(x);
    let s = le_u32(x) + rest;
    assert(s.take(4) =~= le_u32(x));
    assert(s.skip(4) =~= rest);
}

pub proof fn lemma_parse_u32_canonical(s: Seq<u8>)
    requires
        parse_u32(s) is Some,
    ensures
        s =~= le_u32(parse_u32(s).unwrap().0) + parse_u32(s).unwrap().1,
{
    lemma_u32_le_canonical(s.take(4));
    assert(s =~= s.take(4) + s.skip(4));
}

pub proof fn lemma_parse_u64(x: u64, rest: Seq<u8>)
    ensures
        parse_u64(le_u64(x) + rest) == Some((x, rest)),
{
    lemma_u64_le_roundtrip(x);
    let s = le_u64(x) + rest;
    assert(s.take(8) =~= le_u64(x));
    assert(s.skip(8) =~= rest);
}

pub proof fn lemma_parse_u64_canonical(s: Seq<u8>)
    requires
        parse_u64(s) is Some,
    ensures
        s =~= le_u64(parse_u64(s).unwrap().0) + parse_u64(s).unwrap().1,
{
    lemma_u64_le_canonical(s.take(8));
    assert(s =~= s.take(8) + s.skip(8));
}

/// A framed byte string reads back as itself, and the bytes after it are left over.
pub proof fn lemma_parse_framed(b: Seq<u8>, rest: Seq<u8>)
    requires
        b.len() <= u64::MAX,
    ensures
        parse_framed(framed(b) + rest) == Some((b, rest)),
{
    let s = framed(b) + rest;
    assert(s =~= le_u64(b.len() as u64) + (b + rest));
    lemma_parse_u64(b.len() as u64, b + rest);
    assert((b + rest).take(b.len() as int) =~= b);
    assert((b + rest).skip(b.len() as int) =~= rest);
}

/// What `parse_framed` consumes is exactly the framing of what it returns.
pub proof fn lemma_parse_framed_canonical(s: Seq<u8>)
    requires
        parse_framed(s) is Some,
    ensures
        s =~= framed(parse_framed(s).unwrap().0) + parse_framed(s).unwrap().1,
        (parse_framed(s).unwrap().0).len() <= u64::MAX,
{
    lemma_parse_u64_canonical(s);
    let (n, rest) = parse_u64(s).unwrap();
    let b = rest.take(n as int);
    assert(b.len() == n);
    assert(rest =~= b + rest.skip(n as int));
}

/// Appends the little-endian bytes of `x`.
pub fn push_u32(out: &mut Vec<u8>, x: u32)
    ensures
        final(out)@ == old(out)@ + le_u32(x),
{
    out.push((x & 0xff) as u8);
    out.push(((x >> 8u32) & 0xff) as u8);
    out.push(((x >> 16u32) & 0xff) as u8);
    out.push(((x >> 24u32) & 0xff) as u8);
    assert(out@ =~= old(out)@ + le_u32(x));
}

/// Appends the little-endian bytes of `x`.
pub fn push_u64(out: &mut Vec<u8>, x: u64)
    ensures
        final(out)@ == old(out)@ + le_u64(x),
{
    out.push((x & 0xff) as u8);
    out.push(((x >> 8u64) & 0xff) as u8);
    out.push(((x >> 16u64) & 0xff) as u8);
    out.push(((x >> 24u64) & 0xff) as u8);
    out.push(((x >> 32u64) & 0xff) as u8);
    out.push(((x >> 40u64) & 0xff) as u8);
    out.push(((x >> 48u64) & 0xff) as u8);
    out.push(((x >> 56u64) & 0xff) as u8);
    assert(out@ =~= old(out)@ + le_u64(x));
}

/// Appends the big-endian bytes of `x`.
pub fn push_u128_be(out: &mut Vec<u8>, x: u128)
    ensures
        final(out)@ == old(out)@ + be_u128(x),
{
    let mut shift: u128 = 120;
    let ghost start = out@;
    while shift > 0
        invariant
            shift % 8 == 0,
            shift <= 120,
            out@.len() == start.len() + (120 - shift) / 8,
            out@ =~= start + be_u128(x).take((120 - shift) / 8),
        decreases shift,
    {
        out.push(((x >> shift) & 0xff) as u8);
        proof {
            let k = (120 - shift) / 8;
            assert(be_u128(x)[k] == ((x >> shift) & 0xff) as u8);
            assert(be_u128(x).take(k + 1) =~= be_u128(x).take(k).push(be_u128(x)[k]));
        }
        shift = shift - 8;
    }
    out.push((x & 0xff) as u8);
    assert(be_u128(x).take(15).push(be_u128(x)[15]) =~= be_u128(x));
}

/// Appends the bytes of `b`.
pub fn push_bytes(out: &mut Vec<u8>, b: &[u8])
    ensures
        final(out)@ == old(out)@ + b@,
{
    let ghost start = out@;
    let mut i: usize = 0;
    while i < b.len()
        invariant
            i <= b@.len(),
            out@ =~= start + b@.take(i as int),
        decreases b@.len() - i,
    {
        out.push(b[i]);
        assert(b@.take(i + 1) =~= b@.take(i as int).push(b@[i as int]));
        i = i + 1;
    }
    assert(b@.take(b@.len() as int) =~= b@);
}

/// Appends `b` preceded by its length.
pub fn push_framed(out: &mut Vec<u8>, b: &[u8])
    ensures
        final(out)@ == old(out)@ + framed(b@),
        b@.len() <= u64::MAX,
{
    push_u64(out, b.len() as u64);
    push_bytes(out, b);
    assert(out@ =~= old(out)@ + framed(b@));
}

/// Reads a little-endian `u32` at `pos`, returning it and the position after it.
pub fn read_u32(data: &[u8], pos: usize) -> (r: Option<(u32, usize)>)
    requires
        pos <= data@.len(),
    ensures
        r is None <==> parse_u32(data@.skip(pos as int)) is None,
        r matches Some((v, p)) ==> pos <= p <= data@.len() && parse_u32(data@.skip(pos as int))
            == Some((v, data@.skip(p as int))),
{
    if data.len() - pos < 4 {
        return None;
    }
    let v = (data[pos] as u32) | ((data[pos + 1] as u32) << 8u32) | ((data[pos + 2] as u32) << 16u32)
        | ((data[pos + 3] as u32) << 24u32);
    let ghost s = data@.skip(pos as int);
    assert(s.take(4)[0] == data@[pos as int] && s.take(4)[1] == data@[pos + 1]
        && s.take(4)[2] == data@[pos + 2] && s.take(4)[3] == data@[pos + 3]);
    assert(s.skip(4) =~= data@.skip(pos + 4));
    Some((v, pos + 4))
}

/// Reads a little-endian `u64` at `pos`, returning it and the position after it.
pub fn read_u64(data: &[u8], pos: usize) -> (r: Option<(u64, usize)>)
    requires
        pos <= data@.len(),
    ensures
        r is None <==> parse_u64(data@.skip(pos as int)) is None,
        r matches Some((v, p)) ==> pos <= p <= data@.len() && parse_u64(data@.skip(pos as int))
            == Some((v, data@.skip(p as int))),
{
    if data.len() - pos < 8 {
        return None;
    }
    let v = (data[pos] as u64) | ((data[pos + 1] as u64) << 8u64) | ((data[pos + 2] as u64) << 16u64)
        | ((data[pos + 3] as u64) << 24u64) | ((data[pos + 4] as u64) << 32u64)
        | ((data[pos + 5] as u64) << 40u64) | ((data[pos + 6] as u64) << 48u64)
        | ((data[pos + 7] as u64) << 56u64);
    let ghost s = data@.skip(pos as int);
    assert(s.take(8)[0] == data@[pos as int] && s.take(8)[1] == data@[pos + 1]
        && s.take(8)[2] == data@[pos + 2] && s.take(8)[3] == data@[pos + 3]
        && s.take(8)[4] == data@[pos + 4] && s.take(8)[5] == data@[pos + 5]
        && s.take(8)[6] == data@[pos + 6] && s.take(8)[7] == data@[pos + 7]);
    assert(s.skip(8) =~= data@.skip(pos + 8));
    Some((v, pos + 8))
}

/// Reads a length-prefixed byte string at `pos`, returning a copy of it and the
/// position after it.
pub fn read_framed(data: &[u8], pos: usize) -> (r: Option<(Vec<u8>, usize)>)
    requires
        pos <= data@.len(),
    ensures
        r is None <==> parse_framed(data@.skip(pos as int)) is None,
        r matches Some((v, p)) ==> pos <= p <= data@.len() && parse_framed(data@.skip(pos as int))
            == Some((v@, data@.skip(p as int))),
{
    match read_u64(data, pos) {
        None => None,
        Some((n, p)) => {
            let ghost rest = data@.skip(p as int);
            if n > (data.len() - p) as u64 {
                return None;
            }
            let end = p + n as usize;
            let v = vstd::slice::slice_to_vec(vstd::slice::slice_subrange(data, p, end));
            assert(v@ =~= rest.take(n as int));
            assert(rest.skip(n as int) =~= data@.skip(end as int));
            Some((v, end))
        },
    }
}

} // verus!
