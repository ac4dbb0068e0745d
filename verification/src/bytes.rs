//! Little-endian integers, as the wire formats of this crate lay them out.
use vstd::prelude::*;

verus! {

/// The four bytes of `value`, lowest first. Meant for `0 <= value < 2^32`.
pub open spec fn le_bytes_u32(value: int) -> Seq<u8> {
    seq![
        (value % 0x100) as u8,
        (value / 0x100 % 0x100) as u8,
        (value / 0x1_0000 % 0x100) as u8,
        (value / 0x100_0000 % 0x100) as u8,
    ]
}

/// The number that four bytes, lowest first, stand for.
pub open spec fn le_value_u32(bytes: Seq<u8>) -> int {
    bytes[0] + 0x100 * bytes[1] + 0x1_0000 * bytes[2] + 0x100_0000 * bytes[3]
}

/// The four bytes of a signed `value` in two's complement, lowest first.
pub open spec fn le_bytes_i32(value: int) -> Seq<u8> {
    le_bytes_u32(
        if value < 0 {
            value + 0x1_0000_0000
        } else {
            value
        },
    )
}

/// The signed number that four bytes, lowest first, stand for in two's complement.
pub open spec fn le_value_i32(bytes: Seq<u8>) -> int {
    let unsigned = le_value_u32(bytes);
    if unsigned >= 0x8000_0000 {
        unsigned - 0x1_0000_0000
    } else {
        unsigned
    }
}

/// The eight bytes of `value`, lowest first. Meant for `0 <= value < 2^64`.
pub open spec fn le_bytes_u64(value: int) -> Seq<u8> {
    le_bytes_u32(value % 0x1_0000_0000) + le_bytes_u32(value / 0x1_0000_0000)
}

/// The number that eight bytes, lowest first, stand for.
pub open spec fn le_value_u64(bytes: Seq<u8>) -> int {
    le_value_u32(bytes.subrange(0, 4)) + 0x1_0000_0000 * le_value_u32(bytes.subrange(4, 8))
}

/// The sixteen bytes of `value`, lowest first. Meant for `0 <= value < 2^128`.
pub open spec fn le_bytes_u128(value: int) -> Seq<u8> {
    le_bytes_u64(value % 0x1_0000_0000_0000_0000) + le_bytes_u64(value / 0x1_0000_0000_0000_0000)
}

/// The number that sixteen bytes, lowest first, stand for.
pub open spec fn le_value_u128(bytes: Seq<u8>) -> int {
    le_value_u64(bytes.subrange(0, 8)) + 0x1_0000_0000_0000_0000 * le_value_u64(
        bytes.subrange(8, 16),
    )
}

/// Reading back the bytes of an unsigned 32-bit number gives the number.
pub proof fn lemma_u32_round_trip(value: int)
    requires
        0 <= value < 0x1_0000_0000,
    ensures
        le_bytes_u32(value).len() == 4,
        le_value_u32(le_bytes_u32(value)) == value,
{
}

/// Reading back the bytes of a signed 32-bit number gives the number.
pub proof fn lemma_i32_round_trip(value: int)
    requires
        -0x8000_0000 <= value < 0x8000_0000,
    ensures
        le_bytes_i32(value).len() == 4,
        le_value_i32(le_bytes_i32(value)) == value,
{
    if value < 0 {
        lemma_u32_round_trip(value + 0x1_0000_0000);
    } else {
        lemma_u32_round_trip(value);
    }
}

/// Reading back the bytes of an unsigned 64-bit number gives the number.
pub proof fn lemma_u64_round_trip(value: int)
    requires
        0 <= value < 0x1_0000_0000_0000_0000,
    ensures
        le_bytes_u64(value).len() == 8,
        le_value_u64(le_bytes_u64(value)) == value,
{
    let low = value % 0x1_0000_0000;
    let high = value / 0x1_0000_0000;
    lemma_u32_round_trip(low);
    lemma_u32_round_trip(high);
    let bytes = le_bytes_u64(value);
    assert(bytes.subrange(0, 4) =~= le_bytes_u32(low));
    assert(bytes.subrange(4, 8) =~= le_bytes_u32(high));
}

/// Reading back the bytes of an unsigned 128-bit number gives the number.
pub proof fn lemma_u128_round_trip(value: int)
    requires
        0 <= value < 0x1_0000_0000_0000_0000_0000_0000_0000_0000,
    ensures
        le_bytes_u128(value).len() == 16,
        le_value_u128(le_bytes_u128(value)) == value,
{
    let low = value % 0x1_0000_0000_0000_0000;
    let high = value / 0x1_0000_0000_0000_0000;
    lemma_u64_round_trip(low);
    lemma_u64_round_trip(high);
    let bytes = le_bytes_u128(value);
    assert(bytes.subrange(0, 8) =~= le_bytes_u64(low));
    assert(bytes.subrange(8, 16) =~= le_bytes_u64(high));
}

/// Appends the four bytes of `value` to `buf`, lowest first.
pub fn push_u32(buf: &mut Vec<u8>, value: u32)
    ensures
        final(buf)@ == old(buf)@ + le_bytes_u32(value as int),
{
    buf.push((value % 0x100) as u8);
    buf.push((value / 0x100 % 0x100) as u8);
    buf.push((value / 0x1_0000 % 0x100) as u8);
    buf.push((value / 0x100_0000 % 0x100) as u8);
    assert(buf@ =~= old(buf)@ + le_bytes_u32(value as int));
}

/// Appends the four bytes of `value` in two's complement to `buf`, lowest first.
pub fn push_i32(buf: &mut Vec<u8>, value: i32)
    ensures
        final(buf)@ == old(buf)@ + le_bytes_i32(value as int),
{
    let unsigned: u32 = if value >= 0 {
        value as u32
    } else {
        (value as i64 + 0x1_0000_0000i64) as u32
    };
    push_u32(buf, unsigned);
}

/// Appends the eight bytes of `value` to `buf`, lowest first.
pub fn push_u64(buf: &mut Vec<u8>, value: u64)
    ensures
        final(buf)@ == old(buf)@ + le_bytes_u64(value as int),
{
    push_u32(buf, (value % 0x1_0000_0000) as u32);
    push_u32(buf, (value / 0x1_0000_0000) as u32);
    assert(buf@ =~= old(buf)@ + le_bytes_u64(value as int));
}

/// Appends the sixteen bytes of `value` to `buf`, lowest first.
pub fn push_u128(buf: &mut Vec<u8>, value: u128)
    ensures
        final(buf)@ == old(buf)@ + le_bytes_u128(value as int),
{
    push_u64(buf, (value % 0x1_0000_0000_0000_0000) as u64);
    push_u64(buf, (value / 0x1_0000_0000_0000_0000) as u64);
    assert(buf@ =~= old(buf)@ + le_bytes_u128(value as int));
}

/// Reads the unsigned 32-bit number whose four bytes start at `at`.
pub fn read_u32(buf: &[u8], at: usize) -> (value: u32)
    requires
        at + 4 <= buf.len(),
    ensures
        value == le_value_u32(buf@.subrange(at as int, at + 4)),
{
    let b0: u32 = buf[at] as u32;
    let b1: u32 = buf[at + 1] as u32;
    let b2: u32 = buf[at + 2] as u32;
    let b3: u32 = buf[at + 3] as u32;
    b0 + 0x100 * b1 + 0x1_0000 * b2 + 0x100_0000 * b3
}

/// Reads the signed 32-bit number whose four bytes start at `at`.
pub fn read_i32(buf: &[u8], at: usize) -> (value: i32)
    requires
        at + 4 <= buf.len(),
    ensures
        value == le_value_i32(buf@.subrange(at as int, at + 4)),
{
    let unsigned: u32 = read_u32(buf, at);
    if unsigned >= 0x8000_0000 {
        (unsigned as i64 - 0x1_0000_0000i64) as i32
    } else {
        unsigned as i32
    }
}

/// Reads the unsigned 64-bit number whose eight bytes start at `at`.
pub fn read_u64(buf: &[u8], at: usize) -> (value: u64)
    requires
        at + 8 <= buf.len(),
    ensures
        value == le_value_u64(buf@.subrange(at as int, at + 8)),
{
    let low: u64 = read_u32(buf, at) as u64;
    let high: u64 = read_u32(buf, at + 4) as u64;
    proof {
        let bytes = buf@.subrange(at as int, at + 8);
        assert(bytes.subrange(0, 4) =~= buf@.subrange(at as int, at + 4));
        assert(bytes.subrange(4, 8) =~= buf@.subrange(at + 4, at + 8));
    }
    low + 0x1_0000_0000 * high
}

/// Reads the unsigned 128-bit number whose sixteen bytes start at `at`.
pub fn read_u128(buf: &[u8], at: usize) -> (value: u128)
    requires
        at + 16 <= buf.len(),
    ensures
        value == le_value_u128(buf@.subrange(at as int, at + 16)),
{
    let low: u128 = read_u64(buf, at) as u128;
    let high: u128 = read_u64(buf, at + 8) as u128;
    proof {
        let bytes = buf@.subrange(at as int, at + 16);
        assert(bytes.subrange(0, 8) =~= buf@.subrange(at as int, at + 8));
        assert(bytes.subrange(8, 16) =~= buf@.subrange(at + 8, at + 16));
    }
    low + 0x1_0000_0000_0000_0000 * high
}

} // verus!
