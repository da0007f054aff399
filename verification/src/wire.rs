//! Byte-level encodings used by the parcel format: little-endian integers
//! and the four-byte padding rule.

use byteorder::{ByteOrder, LittleEndian};
use vstd::prelude::*;

verus! {

/// The two little-endian bytes of a 16-bit value.
pub open spec fn le16(x: u16) -> Seq<u8> {
    seq![(x % 256) as u8, (x / 256) as u8]
}

/// The 16-bit value whose little-endian bytes are the first two of `b`.
pub open spec fn from_le16(b: Seq<u8>) -> u16 {
    (b[0] + 256 * b[1]) as u16
}

/// The four little-endian bytes of a 32-bit value.
pub open spec fn le32(x: u32) -> Seq<u8> {
    seq![
        (x % 256) as u8,
        (x / 0x100 % 256) as u8,
        (x / 0x1_0000 % 256) as u8,
        (x / 0x100_0000) as u8,
    ]
}

/// The 32-bit value whose little-endian bytes are the first four of `b`.
pub open spec fn from_le32(b: Seq<u8>) -> u32 {
    (b[0] + 0x100 * b[1] + 0x1_0000 * b[2] + 0x100_0000 * b[3]) as u32
}

/// The eight little-endian bytes of a 64-bit value.
pub open spec fn le64(x: u64) -> Seq<u8> {
    le32((x % 0x1_0000_0000) as u32) + le32((x / 0x1_0000_0000) as u32)
}

/// The 64-bit value whose little-endian bytes are the first eight of `b`.
pub open spec fn from_le64(b: Seq<u8>) -> u64 {
    (from_le32(b.subrange(0, 4)) + 0x1_0000_0000 * from_le32(b.subrange(4, 8))) as u64
}

/// The unsigned 32-bit pattern of a signed value (two's complement).
pub open spec fn bits_of_i32(x: i32) -> u32 {
    if x >= 0 {
        x as u32
    } else {
        (x + 0x1_0000_0000) as u32
    }
}

/// The signed value of an unsigned 32-bit pattern (two's complement).
pub open spec fn i32_of_bits(u: u32) -> i32 {
    if u < 0x8000_0000 {
        u as i32
    } else {
        (u - 0x1_0000_0000) as i32
    }
}

/// Decoding undoes encoding, for every width.
pub proof fn lemma_le_round_trip(a: u16, b: u32, c: u64, d: i32)
    ensures
        le16(a).len() == 2,
        le32(b).len() == 4,
        le64(c).len() == 8,
        from_le16(le16(a)) == a,
        from_le32(le32(b)) == b,
        from_le64(le64(c)) == c,
        i32_of_bits(bits_of_i32(d)) == d,
        from_le32(le32(bits_of_i32(d))) == bits_of_i32(d),
{
    let lo = (c % 0x1_0000_0000) as u32;
    let hi = (c / 0x1_0000_0000) as u32;
    assert(le64(c).subrange(0, 4) =~= le32(lo));
    assert(le64(c).subrange(4, 8) =~= le32(hi));
    assert(from_le32(le32(lo)) == lo);
    assert(from_le32(le32(hi)) == hi);
    assert(from_le32(le32(b)) == b);
    assert(from_le16(le16(a)) == a);
    let e = bits_of_i32(d);
    assert(from_le32(le32(e)) == e);
}

/// `byteorder::LittleEndian::write_u16` on a two-byte buffer: the buffer
/// then holds the little-endian bytes of `n`.
#[verifier::external_body]
pub(crate) fn encode_u16(n: u16) -> (r: [u8; 2])
    ensures
        r@ == le16(n),
{
    let mut buf = [0u8; 2];
    LittleEndian::write_u16(&mut buf, n);
    buf
}

/// `byteorder::LittleEndian::write_u32` on a four-byte buffer: the buffer
/// then holds the little-endian bytes of `n`.
#[verifier::external_body]
pub(crate) fn encode_u32(n: u32) -> (r: [u8; 4])
    ensures
        r@ == le32(n),
{
    let mut buf = [0u8; 4];
    LittleEndian::write_u32(&mut buf, n);
    buf
}

/// `byteorder::LittleEndian::write_i32` on a four-byte buffer: the buffer
/// then holds the little-endian bytes of the two's complement pattern of `n`.
#[verifier::external_body]
pub(crate) fn encode_i32(n: i32) -> (r: [u8; 4])
    ensures
        r@ == le32(bits_of_i32(n)),
{
    let mut buf = [0u8; 4];
    LittleEndian::write_i32(&mut buf, n);
    buf
}

/// `byteorder::LittleEndian::write_u64` on an eight-byte buffer: the buffer
/// then holds the little-endian bytes of `n`.
#[verifier::external_body]
pub(crate) fn encode_u64(n: u64) -> (r: [u8; 8])
    ensures
        r@ == le64(n),
{
    let mut buf = [0u8; 8];
    LittleEndian::write_u64(&mut buf, n);
    buf
}

/// `byteorder::LittleEndian::read_u16`: the value of the first two bytes of
/// `buf`, read little-endian. It panics on a shorter buffer.
#[verifier::external_body]
pub(crate) fn decode_u16(buf: &[u8]) -> (r: u16)
    requires
        buf@.len() >= 2,
    ensures
        r == from_le16(buf@),
{
    LittleEndian::read_u16(buf)
}

/// `byteorder::LittleEndian::read_u32`: the value of the first four bytes of
/// `buf`, read little-endian. It panics on a shorter buffer.
#[verifier::external_body]
pub(crate) fn decode_u32(buf: &[u8]) -> (r: u32)
    requires
        buf@.len() >= 4,
    ensures
        r == from_le32(buf@),
{
    LittleEndian::read_u32(buf)
}

/// `byteorder::LittleEndian::read_i32`: the first four bytes of `buf`, read
/// little-endian as a two's complement pattern. It panics on a shorter buffer.
#[verifier::external_body]
pub(crate) fn decode_i32(buf: &[u8]) -> (r: i32)
    requires
        buf@.len() >= 4,
    ensures
        r == i32_of_bits(from_le32(buf@)),
{
    LittleEndian::read_i32(buf)
}

/// `byteorder::LittleEndian::read_u64`: the value of the first eight bytes of
/// `buf`, read little-endian. It panics on a shorter buffer.
#[verifier::external_body]
pub(crate) fn decode_u64(buf: &[u8]) -> (r: u64)
    requires
        buf@.len() >= 8,
    ensures
        r == from_le64(buf@),
{
    LittleEndian::read_u64(buf)
}

} // verus!
