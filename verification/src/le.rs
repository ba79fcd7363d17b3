//! Little-endian integers as byte sequences.

use vstd::prelude::*;

verus! {

/// The two bytes of `n`, least significant first.
pub open spec fn u16_le(n: u16) -> Seq<u8> {
    seq![(n % 0x100) as u8, (n / 0x100) as u8]
}

/// The four bytes of `n`, least significant first.
pub open spec fn u32_le(n: u32) -> Seq<u8> {
    seq![
        (n % 0x100) as u8,
        (n / 0x100 % 0x100) as u8,
        (n / 0x1_0000 % 0x100) as u8,
        (n / 0x100_0000) as u8,
    ]
}

/// The eight bytes of `n`, least significant first.
pub open spec fn u64_le(n: u64) -> Seq<u8> {
    u32_le((n % 0x1_0000_0000) as u32) + u32_le((n / 0x1_0000_0000) as u32)
}

/// The integer whose two bytes, least significant first, are `s`.
pub open spec fn le_u16(s: Seq<u8>) -> u16 {
    (s[0] + 0x100 * s[1]) as u16
}

/// The integer whose four bytes, least significant first, are `s`.
pub open spec fn le_u32(s: Seq<u8>) -> u32 {
    (s[0] + 0x100 * s[1] + 0x1_0000 * s[2] + 0x100_0000 * s[3]) as u32
}

/// The integer whose eight bytes, least significant first, are `s`.
pub open spec fn le_u64(s: Seq<u8>) -> u64 {
    (le_u32(s.subrange(0, 4)) + 0x1_0000_0000 * le_u32(s.subrange(4, 8))) as u64
}

/// Reading the bytes of a 16-bit integer gives the integer back.
pub proof fn law_u16_round_trip(n: u16)
    ensures
        u16_le(n).len() == 2,
        le_u16(u16_le(n)) == n,
{
}

/// Reading the bytes of a 32-bit integer gives the integer back.
pub proof fn law_u32_round_trip(n: u32)
    ensures
        u32_le(n).len() == 4,
        le_u32(u32_le(n)) == n,
{
}

/// Reading the bytes of a 64-bit integer gives the integer back.
pub proof fn law_u64_round_trip(n: u64)
    ensures
        u64_le(n).len() == 8,
        le_u64(u64_le(n)) == n,
{
    let low = (n % 0x1_0000_0000) as u32;
    let high = (n / 0x1_0000_0000) as u32;
    assert(u64_le(n).subrange(0, 4) =~= u32_le(low));
    assert(u64_le(n).subrange(4, 8) =~= u32_le(high));
    law_u32_round_trip(low);
    law_u32_round_trip(high);
}

/// Two bytes are the bytes of the integer that they denote.
pub proof fn law_u16_bytes_round_trip(s: Seq<u8>)
    requires
        s.len() == 2,
    ensures
        u16_le(le_u16(s)) == s,
{
    assert(u16_le(le_u16(s)) =~= s);
}

/// Four bytes are the bytes of the integer that they denote.
pub proof fn law_u32_bytes_round_trip(s: Seq<u8>)
    requires
        s.len() == 4,
    ensures
        u32_le(le_u32(s)) == s,
{
    let n = le_u32(s);
    assert(n == s[0] + 0x100 * (s[1] + 0x100 * (s[2] + 0x100 * s[3])));
    assert(n / 0x100 == s[1] + 0x100 * (s[2] + 0x100 * s[3]));
    assert(n / 0x1_0000 == s[2] + 0x100 * s[3]);
    assert(n / 0x100_0000 == s[3]);
    assert(u32_le(n) =~= s);
}

} // verus!
