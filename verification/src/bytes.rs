//! Little-endian byte images of the integers that tags are made of.

use vstd::prelude::*;

verus! {

/// The four bytes of `x`, least significant first.
pub open spec fn u32_le_bytes(x: u32) -> Seq<u8> {
    seq![
        (x % 0x100) as u8,
        (x / 0x100 % 0x100) as u8,
        (x / 0x1_0000 % 0x100) as u8,
        (x / 0x100_0000) as u8,
    ]
}

/// The number whose little-endian image is the first four bytes of `s`.
pub open spec fn u32_from_le_bytes(s: Seq<u8>) -> u32
    recommends
        s.len() >= 4,
{
    (s[0] + 0x100 * s[1] + 0x1_0000 * s[2] + 0x100_0000 * s[3]) as u32
}

/// The eight bytes of `x`, least significant first.
pub open spec fn u64_le_bytes(x: u64) -> Seq<u8> {
    seq![
        (x % 0x100) as u8,
        (x / 0x100 % 0x100) as u8,
        (x / 0x1_0000 % 0x100) as u8,
        (x / 0x100_0000 % 0x100) as u8,
        (x / 0x1_0000_0000 % 0x100) as u8,
        (x / 0x100_0000_0000 % 0x100) as u8,
        (x / 0x1_0000_0000_0000 % 0x100) as u8,
        (x / 0x100_0000_0000_0000) as u8,
    ]
}

/// The number whose little-endian image is the first eight bytes of `s`.
pub open spec fn u64_from_le_bytes(s: Seq<u8>) -> u64
    recommends
        s.len() >= 8,
{
    (s[0] + 0x100 * s[1] + 0x1_0000 * s[2] + 0x100_0000 * s[3] + 0x1_0000_0000 * s[4]
        + 0x100_0000_0000 * s[5] + 0x1_0000_0000_0000 * s[6] + 0x100_0000_0000_0000 * s[7]) as u64
}

/// Writes `x` in little-endian order.
pub fn u32_to_le(x: u32) -> (r: [u8; 4])
    ensures
        r@ == u32_le_bytes(x),
{
    let r: [u8; 4] = [
        (x % 0x100) as u8,
        (x / 0x100 % 0x100) as u8,
        (x / 0x1_0000 % 0x100) as u8,
        (x / 0x100_0000) as u8,
    ];
    assert(r@ =~= u32_le_bytes(x));
    r
}

/// Reads the number that `bytes` hold in little-endian order.
pub fn u32_from_le(bytes: [u8; 4]) -> (r: u32)
    ensures
        r == u32_from_le_bytes(bytes@),
{
    let b0: u32 = bytes[0] as u32;
    let b1: u32 = bytes[1] as u32;
    let b2: u32 = bytes[2] as u32;
    let b3: u32 = bytes[3] as u32;
    b0 + 0x100 * b1 + 0x1_0000 * b2 + 0x100_0000 * b3
}

/// Writes `x` in little-endian order.
pub fn u64_to_le(x: u64) -> (r: [u8; 8])
    ensures
        r@ == u64_le_bytes(x),
{
    let r: [u8; 8] = [
        (x % 0x100) as u8,
        (x / 0x100 % 0x100) as u8,
        (x / 0x1_0000 % 0x100) as u8,
        (x / 0x100_0000 % 0x100) as u8,
        (x / 0x1_0000_0000 % 0x100) as u8,
        (x / 0x100_0000_0000 % 0x100) as u8,
        (x / 0x1_0000_0000_0000 % 0x100) as u8,
        (x / 0x100_0000_0000_0000) as u8,
    ];
    assert(r@ =~= u64_le_bytes(x));
    r
}

/// Reads the number that `bytes` hold in little-endian order.
pub fn u64_from_le(bytes: [u8; 8]) -> (r: u64)
    ensures
        r == u64_from_le_bytes(bytes@),
{
    let b0: u64 = bytes[0] as u64;
    let b1: u64 = bytes[1] as u64;
    let b2: u64 = bytes[2] as u64;
    let b3: u64 = bytes[3] as u64;
    let b4: u64 = bytes[4] as u64;
    let b5: u64 = bytes[5] as u64;
    let b6: u64 = bytes[6] as u64;
    let b7: u64 = bytes[7] as u64;
    b0 + 0x100 * b1 + 0x1_0000 * b2 + 0x100_0000 * b3 + 0x1_0000_0000 * b4 + 0x100_0000_0000 * b5
        + 0x1_0000_0000_0000 * b6 + 0x100_0000_0000_0000 * b7
}

/// Reading what was written gives the number back.
pub proof fn lemma_u32_le_decode(x: u32)
    ensures
        u32_le_bytes(x).len() == 4,
        u32_from_le_bytes(u32_le_bytes(x)) == x,
{
    assert(x == (x % 0x100) + 0x100 * (x / 0x100 % 0x100) + 0x1_0000 * (x / 0x1_0000 % 0x100)
        + 0x100_0000 * (x / 0x100_0000)) by (bit_vector);
}

/// Writing what was read gives the four bytes back.
pub proof fn lemma_u32_le_encode(s: Seq<u8>)
    requires
        s.len() == 4,
    ensures
        u32_le_bytes(u32_from_le_bytes(s)) == s,
{
    let a: u32 = s[0] as u32;
    let b: u32 = s[1] as u32;
    let c: u32 = s[2] as u32;
    let d: u32 = s[3] as u32;
    let v: u32 = u32_from_le_bytes(s);
    assert(v == a + 0x100 * b + 0x1_0000 * c + 0x100_0000 * d);
    assert(v % 0x100 == a && v / 0x100 % 0x100 == b && v / 0x1_0000 % 0x100 == c && v / 0x100_0000
        == d) by (bit_vector)
        requires
            a < 0x100,
            b < 0x100,
            c < 0x100,
            d < 0x100,
            v == a + 0x100 * b + 0x1_0000 * c + 0x100_0000 * d,
    ;
    assert(u32_le_bytes(v) =~= s);
}

/// Reading what was written gives the number back.
pub proof fn lemma_u64_le_decode(x: u64)
    ensures
        u64_le_bytes(x).len() == 8,
        u64_from_le_bytes(u64_le_bytes(x)) == x,
{
    assert(x == (x % 0x100) + 0x100 * (x / 0x100 % 0x100) + 0x1_0000 * (x / 0x1_0000 % 0x100)
        + 0x100_0000 * (x / 0x100_0000 % 0x100) + 0x1_0000_0000 * (x / 0x1_0000_0000 % 0x100)
        + 0x100_0000_0000 * (x / 0x100_0000_0000 % 0x100) + 0x1_0000_0000_0000 * (x
        / 0x1_0000_0000_0000 % 0x100) + 0x100_0000_0000_0000 * (x / 0x100_0000_0000_0000))
        by (bit_vector);
}

/// Writing what was read gives the eight bytes back.
pub proof fn lemma_u64_le_encode(s: Seq<u8>)
    requires
        s.len() == 8,
    ensures
        u64_le_bytes(u64_from_le_bytes(s)) == s,
{
    let a: u64 = s[0] as u64;
    let b: u64 = s[1] as u64;
    let c: u64 = s[2] as u64;
    let d: u64 = s[3] as u64;
    let e: u64 = s[4] as u64;
    let f: u64 = s[5] as u64;
    let g: u64 = s[6] as u64;
    let h: u64 = s[7] as u64;
    let v: u64 = u64_from_le_bytes(s);
    assert(v == a + 0x100 * b + 0x1_0000 * c + 0x100_0000 * d + 0x1_0000_0000 * e + 0x100_0000_0000
        * f + 0x1_0000_0000_0000 * g + 0x100_0000_0000_0000 * h);
    assert(v % 0x100 == a && v / 0x100 % 0x100 == b && v / 0x1_0000 % 0x100 == c && v / 0x100_0000
        % 0x100 == d && v / 0x1_0000_0000 % 0x100 == e && v / 0x100_0000_0000 % 0x100 == f && v
        / 0x1_0000_0000_0000 % 0x100 == g && v / 0x100_0000_0000_0000 == h) by (bit_vector)
        requires
            a < 0x100,
            b < 0x100,
            c < 0x100,
            d < 0x100,
            e < 0x100,
            f < 0x100,
            g < 0x100,
            h < 0x100,
            v == a + 0x100 * b + 0x1_0000 * c + 0x100_0000 * d + 0x1_0000_0000 * e
                + 0x100_0000_0000 * f + 0x1_0000_0000_0000 * g + 0x100_0000_0000_0000 * h,
    ;
    assert(u64_le_bytes(v) =~= s);
}

} // verus!
