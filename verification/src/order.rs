//! Integers as byte sequences in a given byte order.
//!
//! The records of a message are laid out in the byte order of the host. Which
//! one that is, the daemon tells when it opens a device.

use vstd::prelude::*;

use crate::le::{
    law_u16_bytes_round_trip, law_u16_round_trip, law_u32_bytes_round_trip, law_u32_round_trip,
    law_u64_round_trip, le_u16, le_u32, le_u64, u16_le, u32_le, u64_le,
};

verus! {

/// Which byte of an integer comes first.
#[derive(Clone, Copy, Debug, PartialEq, Eq, Structural)]
pub enum ByteOrder {
    /// The least significant one.
    Little,
    /// The most significant one.
    Big,
}

/// `bytes`, given least significant first, in the order `order`; and the other
/// way round.
pub open spec fn reorder(bytes: Seq<u8>, order: ByteOrder) -> Seq<u8> {
    match order {
        ByteOrder::Little => bytes,
        ByteOrder::Big => bytes.reverse(),
    }
}

/// The two bytes of `n` in the order `order`.
pub open spec fn u16_ordered(n: u16, order: ByteOrder) -> Seq<u8> {
    reorder(u16_le(n), order)
}

/// The four bytes of `n` in the order `order`.
pub open spec fn u32_ordered(n: u32, order: ByteOrder) -> Seq<u8> {
    reorder(u32_le(n), order)
}

/// The eight bytes of `n` in the order `order`.
pub open spec fn u64_ordered(n: u64, order: ByteOrder) -> Seq<u8> {
    reorder(u64_le(n), order)
}

/// The integer whose two bytes, in the order `order`, are `s`.
pub open spec fn ordered_u16(s: Seq<u8>, order: ByteOrder) -> u16 {
    le_u16(reorder(s, order))
}

/// The integer whose four bytes, in the order `order`, are `s`.
pub open spec fn ordered_u32(s: Seq<u8>, order: ByteOrder) -> u32 {
    le_u32(reorder(s, order))
}

/// The integer whose eight bytes, in the order `order`, are `s`.
pub open spec fn ordered_u64(s: Seq<u8>, order: ByteOrder) -> u64 {
    le_u64(reorder(s, order))
}

/// Putting bytes into an order and back leaves them as they are.
pub proof fn law_reorder_undoes_itself(bytes: Seq<u8>, order: ByteOrder)
    ensures
        reorder(bytes, order).len() == bytes.len(),
        reorder(reorder(bytes, order), order) == bytes,
{
    assert(bytes.reverse().reverse() =~= bytes);
}

/// In either order, reading the bytes of an integer gives the integer back.
pub proof fn law_ordered_round_trip(small: u16, middle: u32, large: u64, order: ByteOrder)
    ensures
        u16_ordered(small, order).len() == 2,
        u32_ordered(middle, order).len() == 4,
        u64_ordered(large, order).len() == 8,
        ordered_u16(u16_ordered(small, order), order) == small,
        ordered_u32(u32_ordered(middle, order), order) == middle,
        ordered_u64(u64_ordered(large, order), order) == large,
{
    law_u16_round_trip(small);
    law_u32_round_trip(middle);
    law_u64_round_trip(large);
    law_reorder_undoes_itself(u16_le(small), order);
    law_reorder_undoes_itself(u32_le(middle), order);
    law_reorder_undoes_itself(u64_le(large), order);
}

/// In either order, two and four bytes are the bytes of the integers that they
/// denote.
pub proof fn law_ordered_bytes_round_trip(two: Seq<u8>, four: Seq<u8>, order: ByteOrder)
    requires
        two.len() == 2,
        four.len() == 4,
    ensures
        u16_ordered(ordered_u16(two, order), order) == two,
        u32_ordered(ordered_u32(four, order), order) == four,
{
    law_reorder_undoes_itself(two, order);
    law_reorder_undoes_itself(four, order);
    law_u16_bytes_round_trip(reorder(two, order));
    law_u32_bytes_round_trip(reorder(four, order));
}

/// The number that bytes denote when each counts 256 times as much as the one
/// before it.
pub open spec fn little_value(bytes: Seq<u8>) -> int
    decreases bytes.len(),
{
    if bytes.len() == 0 {
        0
    } else {
        bytes[0] + 0x100 * little_value(bytes.drop_first())
    }
}

/// The number that bytes denote when each counts 256 times as much as the one
/// behind it.
pub open spec fn big_value(bytes: Seq<u8>) -> int
    decreases bytes.len(),
{
    if bytes.len() == 0 {
        0
    } else {
        0x100 * big_value(bytes.drop_last()) + bytes.last()
    }
}

/// The number that bytes denote in a byte order.
pub open spec fn value(bytes: Seq<u8>, order: ByteOrder) -> int {
    match order {
        ByteOrder::Little => little_value(bytes),
        ByteOrder::Big => big_value(bytes),
    }
}

/// Reading bytes most significant first is reading them backwards least
/// significant first.
pub proof fn law_big_value_is_backwards(bytes: Seq<u8>)
    ensures
        big_value(bytes) == little_value(bytes.reverse()),
    decreases bytes.len(),
{
    if bytes.len() > 0 {
        law_big_value_is_backwards(bytes.drop_last());
        assert(bytes.reverse().drop_first() =~= bytes.drop_last().reverse());
        assert(bytes.reverse()[0] == bytes.last());
    }
}

/// Bytes denote the integer that is read from them, least significant first.
pub proof fn law_little_reading(two: Seq<u8>, four: Seq<u8>, eight: Seq<u8>)
    requires
        two.len() == 2,
        four.len() == 4,
        eight.len() == 8,
    ensures
        le_u16(two) == little_value(two),
        le_u32(four) == little_value(four),
        le_u64(eight) == little_value(eight),
{
    lemma_two(two);
    lemma_four(four);
    lemma_four(eight.subrange(0, 4));
    lemma_four(eight.subrange(4, 8));
    lemma_split(eight);
}

proof fn lemma_two(s: Seq<u8>)
    requires
        s.len() == 2,
    ensures
        le_u16(s) == little_value(s),
{
    reveal_with_fuel(little_value, 3);
}

proof fn lemma_four(s: Seq<u8>)
    requires
        s.len() == 4,
    ensures
        le_u32(s) == little_value(s),
        0 <= little_value(s) < 0x1_0000_0000,
{
    reveal_with_fuel(little_value, 5);
}

/// Eight bytes denote what their halves denote.
proof fn lemma_split(s: Seq<u8>)
    requires
        s.len() == 8,
    ensures
        little_value(s) == little_value(s.subrange(0, 4)) + 0x1_0000_0000 * little_value(
            s.subrange(4, 8),
        ),
{
    let d1 = s.drop_first();
    let d2 = d1.drop_first();
    let d3 = d2.drop_first();
    let d4 = d3.drop_first();
    assert(d4 =~= s.subrange(4, 8));
    let low = s.subrange(0, 4);
    let e1 = low.drop_first();
    let e2 = e1.drop_first();
    let e3 = e2.drop_first();
    assert(little_value(e3.drop_first()) == 0);
    assert(little_value(e3) == s[3]);
    assert(little_value(e2) == s[2] + 0x100 * little_value(e3));
    assert(little_value(e1) == s[1] + 0x100 * little_value(e2));
    assert(little_value(low) == s[0] + 0x100 * little_value(e1));
    assert(little_value(d3) == s[3] + 0x100 * little_value(d4));
    assert(little_value(d2) == s[2] + 0x100 * little_value(d3));
    assert(little_value(d1) == s[1] + 0x100 * little_value(d2));
}

/// Bytes denote the integer that is read from them, in either order.
pub proof fn law_reading(two: Seq<u8>, four: Seq<u8>, eight: Seq<u8>, order: ByteOrder)
    requires
        two.len() == 2,
        four.len() == 4,
        eight.len() == 8,
    ensures
        ordered_u16(two, order) == value(two, order),
        ordered_u32(four, order) == value(four, order),
        ordered_u64(eight, order) == value(eight, order),
{
    match order {
        ByteOrder::Little => law_little_reading(two, four, eight),
        ByteOrder::Big => {
            law_big_value_is_backwards(two);
            law_big_value_is_backwards(four);
            law_big_value_is_backwards(eight);
            law_little_reading(two.reverse(), four.reverse(), eight.reverse());
        },
    }
}

/// The bytes that an integer is written as denote it, in either order; and so
/// do those that are least significant first on every host.
pub proof fn law_writing(small: u16, middle: u32, large: u64, order: ByteOrder)
    ensures
        u16_ordered(small, order).len() == 2,
        u32_ordered(middle, order).len() == 4,
        u64_ordered(large, order).len() == 8,
        value(u16_ordered(small, order), order) == small,
        value(u32_ordered(middle, order), order) == middle,
        value(u64_ordered(large, order), order) == large,
        u16_le(small).len() == 2,
        u32_le(middle).len() == 4,
        u64_le(large).len() == 8,
        little_value(u16_le(small)) == small,
        little_value(u32_le(middle)) == middle,
        little_value(u64_le(large)) == large,
{
    law_ordered_round_trip(small, middle, large, order);
    law_reading(
        u16_ordered(small, order),
        u32_ordered(middle, order),
        u64_ordered(large, order),
        order,
    );
    law_u16_round_trip(small);
    law_u32_round_trip(middle);
    law_u64_round_trip(large);
    law_little_reading(u16_le(small), u32_le(middle), u64_le(large));
}

/// The two bytes of `n` in the order `order`.
pub(crate) fn u16_bytes(n: u16, order: ByteOrder) -> (bytes: [u8; 2])
    ensures
        bytes@ == u16_ordered(n, order),
{
    let low: u8 = (n % 0x100) as u8;
    let high: u8 = (n / 0x100) as u8;
    let bytes = match order {
        ByteOrder::Little => [low, high],
        ByteOrder::Big => [high, low],
    };
    assert(bytes@ =~= u16_ordered(n, order));
    bytes
}

/// The four bytes of `n` in the order `order`.
pub(crate) fn u32_bytes(n: u32, order: ByteOrder) -> (bytes: [u8; 4])
    ensures
        bytes@ == u32_ordered(n, order),
{
    let b0: u8 = (n % 0x100) as u8;
    let b1: u8 = (n / 0x100 % 0x100) as u8;
    let b2: u8 = (n / 0x1_0000 % 0x100) as u8;
    let b3: u8 = (n / 0x100_0000) as u8;
    let bytes = match order {
        ByteOrder::Little => [b0, b1, b2, b3],
        ByteOrder::Big => [b3, b2, b1, b0],
    };
    assert(bytes@ =~= u32_ordered(n, order));
    bytes
}

/// The eight bytes of `n` in the order `order`.
pub(crate) fn u64_bytes(n: u64, order: ByteOrder) -> (bytes: [u8; 8])
    ensures
        bytes@ == u64_ordered(n, order),
{
    let low = u32_bytes((n % 0x1_0000_0000) as u32, ByteOrder::Little);
    let high = u32_bytes((n / 0x1_0000_0000) as u32, ByteOrder::Little);
    let bytes = match order {
        ByteOrder::Little => [
            low[0],
            low[1],
            low[2],
            low[3],
            high[0],
            high[1],
            high[2],
            high[3],
        ],
        ByteOrder::Big => [
            high[3],
            high[2],
            high[1],
            high[0],
            low[3],
            low[2],
            low[1],
            low[0],
        ],
    };
    assert(bytes@ =~= u64_ordered(n, order));
    bytes
}

/// The integer whose two bytes, in the order `order`, are `b0` and `b1`.
pub(crate) fn read_u16(b0: u8, b1: u8, order: ByteOrder) -> (n: u16)
    ensures
        n == ordered_u16(seq![b0, b1], order),
{
    match order {
        ByteOrder::Little => b0 as u16 + 0x100 * (b1 as u16),
        ByteOrder::Big => b1 as u16 + 0x100 * (b0 as u16),
    }
}

/// The integer whose four bytes, in the order `order`, are `b0` to `b3`.
pub(crate) fn read_u32(b0: u8, b1: u8, b2: u8, b3: u8, order: ByteOrder) -> (n: u32)
    ensures
        n == ordered_u32(seq![b0, b1, b2, b3], order),
{
    let (c0, c1, c2, c3) = match order {
        ByteOrder::Little => (b0, b1, b2, b3),
        ByteOrder::Big => (b3, b2, b1, b0),
    };
    let low: u32 = c0 as u32 + 0x100 * (c1 as u32);
    let high: u32 = c2 as u32 + 0x100 * (c3 as u32);
    low + 0x1_0000 * high
}

} // verus!
