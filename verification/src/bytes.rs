//! Numbers in bytes.

use vstd::prelude::*;

verus! {

/// A number of 16 bits, least significant byte first.
pub open spec fn le16(x: u16) -> Seq<u8> {
    seq![(x % 256) as u8, (x / 256) as u8]
}

/// A number of 32 bits, least significant byte first.
pub open spec fn le32(x: u32) -> Seq<u8> {
    seq![
        (x % 256) as u8,
        (x / 256 % 256) as u8,
        (x / 65536 % 256) as u8,
        (x / 16777216) as u8,
    ]
}

/// The number that two bytes give, least significant first.
pub open spec fn from_le16(a: u8, b: u8) -> int {
    a + 256 * b
}

/// The number that four bytes give, least significant first.
pub open spec fn from_le32(a: u8, b: u8, c: u8, d: u8) -> int {
    a + 256 * b + 65536 * c + 16777216 * d
}

/// The number that a byte stands for in two's complement.
pub open spec fn signed8(b: u8) -> int {
    if b < 128 {
        b as int
    } else {
        b - 256
    }
}

pub fn u16_le(a: u8, b: u8) -> (r: u16)
    ensures
        r == from_le16(a, b),
{
    a as u16 + 256 * (b as u16)
}

pub fn u16_be(a: u8, b: u8) -> (r: u16)
    ensures
        r == 256 * a + b,
{
    256 * (a as u16) + b as u16
}

pub fn u32_le(a: u8, b: u8, c: u8, d: u8) -> (r: u32)
    ensures
        r == from_le32(a, b, c, d),
{
    a as u32 + 256 * (b as u32) + 65536 * (c as u32) + 16777216 * (d as u32)
}

pub fn u32_bytes(x: u32) -> (r: [u8; 4])
    ensures
        r@ == le32(x),
{
    let r: [u8; 4] = [
        (x % 256) as u8,
        (x / 256 % 256) as u8,
        (x / 65536 % 256) as u8,
        (x / 16777216) as u8,
    ];
    assert(r@ =~= le32(x));
    r
}

pub fn u16_bytes(x: u16) -> (r: [u8; 2])
    ensures
        r@ == le16(x),
{
    let r: [u8; 2] = [(x % 256) as u8, (x / 256) as u8];
    assert(r@ =~= le16(x));
    r
}

pub fn i8_of(b: u8) -> (r: i8)
    ensures
        r == signed8(b),
{
    if b < 128 {
        b as i8
    } else {
        (b as i16 - 256) as i8
    }
}

/// A signed byte, sign-extended to a word.
pub open spec fn extended(v: i8) -> int {
    if v < 0 {
        0x1_0000_0000 + v
    } else {
        v as int
    }
}

pub fn extend(v: i8) -> (r: u32)
    ensures
        r == extended(v),
{
    if v < 0 {
        (0x1_0000_0000i64 + v as i64) as u32
    } else {
        v as u32
    }
}

/// Four bytes read back the number they were made from.
pub proof fn lemma_le32_back(x: u32)
    ensures
        from_le32(le32(x)[0], le32(x)[1], le32(x)[2], le32(x)[3]) == x,
{
}

// ---- laws ----

/// Little-endian bytes, each weighed by its place, make up the number.
pub proof fn law_bytes_weigh_by_place(x: u16, y: u32)
    ensures
        le16(x).len() == 2,
        le16(x)[0] + 0x100 * le16(x)[1] == x,
        le32(y).len() == 4,
        le32(y)[0] + 0x100 * le32(y)[1] + 0x1_0000 * le32(y)[2] + 0x100_0000 * le32(y)[3] == y,
{
}

/// Numbers are read back from their bytes, and different bytes are different
/// numbers.
pub proof fn law_bytes_read_back(x: u16, y: u32, a: u8, b: u8, c: u8, d: u8)
    ensures
        from_le16(le16(x)[0], le16(x)[1]) == x,
        from_le32(le32(y)[0], le32(y)[1], le32(y)[2], le32(y)[3]) == y,
        from_le16(a, b) == a + 0x100 * b,
        from_le32(a, b, c, d) == from_le16(a, b) + 0x1_0000 * from_le16(c, d),
{
}

/// Two's complement: the byte and the number differ by a multiple of 256, the
/// sign-extended word and the number by one of 2^32.
pub proof fn law_twos_complement(b: u8, v: i8)
    ensures
        -128 <= signed8(b) <= 127,
        (signed8(b) - b) % 256 == 0,
        0 <= extended(v) < 0x1_0000_0000,
        (extended(v) - v) % 0x1_0000_0000 == 0,
        signed8((extended(v) % 256) as u8) == v,
{
}

/// A number has one spelling in four bytes.
pub proof fn lemma_le32_only(a: u8, b: u8, c: u8, d: u8, x: u32)
    requires
        from_le32(a, b, c, d) == x,
    ensures
        le32(x) == seq![a, b, c, d],
{
    assert(le32(x) =~= seq![a, b, c, d]);
}

} // verus!
