//! Fixed-width integers in byte buffers, in either byte order.
//!
//! The kernel structures that travel through `ioctl` hold integers in the byte order of the
//! machine, so every reader and writer here takes the order as an argument.

use vstd::prelude::*;

verus! {

/// The order in which the bytes of an integer are stored.
#[derive(Debug, Clone, Copy, PartialEq, Eq, Structural)]
pub enum ByteOrder {
    /// The least significant byte comes first.
    Little,
    /// The most significant byte comes first.
    Big,
}

/// The number whose base-256 digits, least significant first, are the four given bytes.
pub open spec fn join4(b0: u8, b1: u8, b2: u8, b3: u8) -> u32 {
    (b0 + 0x100 * b1 + 0x1_0000 * b2 + 0x100_0000 * b3) as u32
}

/// The bytes of a 32-bit number in the given order.
pub open spec fn u32_bytes(order: ByteOrder, v: u32) -> Seq<u8> {
    let b0 = (v % 0x100) as u8;
    let b1 = (v / 0x100 % 0x100) as u8;
    let b2 = (v / 0x1_0000 % 0x100) as u8;
    let b3 = (v / 0x100_0000 % 0x100) as u8;
    match order {
        ByteOrder::Little => seq![b0, b1, b2, b3],
        ByteOrder::Big => seq![b3, b2, b1, b0],
    }
}

/// The 32-bit number that stands in a buffer at position `at`.
pub open spec fn u32_at(order: ByteOrder, s: Seq<u8>, at: int) -> u32 {
    match order {
        ByteOrder::Little => join4(s[at], s[at + 1], s[at + 2], s[at + 3]),
        ByteOrder::Big => join4(s[at + 3], s[at + 2], s[at + 1], s[at]),
    }
}

/// A 32-bit pattern read as a two's complement number.
pub open spec fn signed32(v: u32) -> i32 {
    if v < 0x8000_0000 {
        v as i32
    } else {
        (v - 0x1_0000_0000) as i32
    }
}

/// A two's complement number as its 32-bit pattern.
pub open spec fn pattern32(v: i32) -> u32 {
    if v >= 0 {
        v as u32
    } else {
        (v + 0x1_0000_0000) as u32
    }
}

/// The two's complement 32-bit number that stands in a buffer at position `at`.
pub open spec fn i32_at(order: ByteOrder, s: Seq<u8>, at: int) -> i32 {
    signed32(u32_at(order, s, at))
}

/// The two's complement 64-bit number that stands in a buffer at position `at`.
pub open spec fn i64_at(order: ByteOrder, s: Seq<u8>, at: int) -> i64 {
    let first = u32_at(order, s, at);
    let second = u32_at(order, s, at + 4);
    match order {
        ByteOrder::Little => (signed32(second) * 0x1_0000_0000 + first) as i64,
        ByteOrder::Big => (signed32(first) * 0x1_0000_0000 + second) as i64,
    }
}

/// A buffer with the bytes at `at` replaced by `patch`.
pub open spec fn patched(s: Seq<u8>, at: int, patch: Seq<u8>) -> Seq<u8> {
    Seq::new(
        s.len(),
        |i: int|
            if at <= i < at + patch.len() {
                patch[i - at]
            } else {
                s[i]
            },
    )
}

/// A buffer of `n` zero bytes.
pub open spec fn zeros(n: nat) -> Seq<u8> {
    Seq::new(n, |i: int| 0u8)
}

/// Reads the 32-bit number at position `at`.
pub fn read_u32(order: ByteOrder, buf: &[u8], at: usize) -> (r: u32)
    requires
        at + 4 <= buf.len(),
    ensures
        r == u32_at(order, buf@, at as int),
{
    let a: u32 = buf[at] as u32;
    let b: u32 = buf[at + 1] as u32;
    let c: u32 = buf[at + 2] as u32;
    let d: u32 = buf[at + 3] as u32;
    match order {
        ByteOrder::Little => a + 0x100 * b + 0x1_0000 * c + 0x100_0000 * d,
        ByteOrder::Big => d + 0x100 * c + 0x1_0000 * b + 0x100_0000 * a,
    }
}

/// Reads the two's complement 32-bit number at position `at`.
pub fn read_i32(order: ByteOrder, buf: &[u8], at: usize) -> (r: i32)
    requires
        at + 4 <= buf.len(),
    ensures
        r == i32_at(order, buf@, at as int),
{
    let v: u32 = read_u32(order, buf, at);
    if v < 0x8000_0000 {
        v as i32
    } else {
        (v as i64 - 0x1_0000_0000) as i32
    }
}

/// Reads the two's complement 64-bit number at position `at`.
pub fn read_i64(order: ByteOrder, buf: &[u8], at: usize) -> (r: i64)
    requires
        at + 8 <= buf.len(),
    ensures
        r == i64_at(order, buf@, at as int),
{
    match order {
        ByteOrder::Little => read_i32(order, buf, at + 4) as i64 * 0x1_0000_0000 + read_u32(
            order,
            buf,
            at,
        ) as i64,
        ByteOrder::Big => read_i32(order, buf, at) as i64 * 0x1_0000_0000 + read_u32(
            order,
            buf,
            at + 4,
        ) as i64,
    }
}

/// Writes a 32-bit number at position `at`.
pub fn write_u32<const N: usize>(order: ByteOrder, buf: &mut [u8; N], at: usize, v: u32)
    requires
        at + 4 <= N,
    ensures
        final(buf)@ == patched(old(buf)@, at as int, u32_bytes(order, v)),
{
    let b0: u8 = (v % 0x100) as u8;
    let b1: u8 = (v / 0x100 % 0x100) as u8;
    let b2: u8 = (v / 0x1_0000 % 0x100) as u8;
    let b3: u8 = (v / 0x100_0000 % 0x100) as u8;
    match order {
        ByteOrder::Little => {
            buf[at] = b0;
            buf[at + 1] = b1;
            buf[at + 2] = b2;
            buf[at + 3] = b3;
        },
        ByteOrder::Big => {
            buf[at] = b3;
            buf[at + 1] = b2;
            buf[at + 2] = b1;
            buf[at + 3] = b0;
        },
    }
    proof {
        assert(buf@ =~= patched(old(buf)@, at as int, u32_bytes(order, v)));
    }
}

/// Writes a two's complement 32-bit number at position `at`.
pub fn write_i32<const N: usize>(order: ByteOrder, buf: &mut [u8; N], at: usize, v: i32)
    requires
        at + 4 <= N,
    ensures
        final(buf)@ == patched(old(buf)@, at as int, u32_bytes(order, pattern32(v))),
{
    let pattern: u32 = if v >= 0 {
        v as u32
    } else {
        (v as i64 + 0x1_0000_0000) as u32
    };
    write_u32(order, buf, at, pattern);
}

// ---------------------------------------------------------------------------------------------
// Laws
// ---------------------------------------------------------------------------------------------

/// A read gives back the 32-bit number that was written at the same place.
pub proof fn read_gives_back_write(order: ByteOrder, s: Seq<u8>, at: int, v: u32)
    requires
        0 <= at,
        at + 4 <= s.len(),
    ensures
        u32_at(order, patched(s, at, u32_bytes(order, v)), at) == v,
{
    assert(v == v % 0x100 + 0x100 * (v / 0x100 % 0x100) + 0x1_0000 * (v / 0x1_0000 % 0x100)
        + 0x100_0000 * (v / 0x100_0000 % 0x100)) by (bit_vector);
}

/// A read gives back the signed 32-bit number that was written at the same place.
pub proof fn read_gives_back_signed_write(order: ByteOrder, s: Seq<u8>, at: int, v: i32)
    requires
        0 <= at,
        at + 4 <= s.len(),
    ensures
        i32_at(order, patched(s, at, u32_bytes(order, pattern32(v))), at) == v,
{
    read_gives_back_write(order, s, at, pattern32(v));
}

/// A write does not change what is read at a place that it does not touch.
pub proof fn write_leaves_the_rest(order: ByteOrder, s: Seq<u8>, at: int, v: u32, other: int)
    requires
        0 <= at,
        at + 4 <= s.len(),
        0 <= other,
        other + 4 <= s.len(),
        other + 4 <= at || at + 4 <= other,
    ensures
        u32_at(order, patched(s, at, u32_bytes(order, v)), other) == u32_at(order, s, other),
{
}

/// The two byte orders mirror each other.
pub proof fn orders_mirror(v: u32)
    ensures
        u32_bytes(ByteOrder::Big, v) == u32_bytes(ByteOrder::Little, v).reverse(),
{
    assert(u32_bytes(ByteOrder::Big, v) =~= u32_bytes(ByteOrder::Little, v).reverse());
}

/// The byte at the lower address is the least significant one in little-endian order, and the most
/// significant one in big-endian order: every byte counts 256 times as much as its lesser neighbour.
pub proof fn bytes_have_their_weight(s: Seq<u8>, at: int)
    ensures
        u32_at(ByteOrder::Little, s, at) as int == s[at] as int + 256 * (s[at + 1] as int + 256 * (
        s[at + 2] as int + 256 * s[at + 3] as int)),
        u32_at(ByteOrder::Big, s, at) as int == s[at + 3] as int + 256 * (s[at + 2] as int + 256 * (
        s[at + 1] as int + 256 * s[at] as int)),
{
}

/// A signed number and its bit pattern agree up to a multiple of 2 to the 32.
pub proof fn signed_reads_agree_with_unsigned(order: ByteOrder, s: Seq<u8>, at: int)
    ensures
        i32_at(order, s, at) as int == u32_at(order, s, at) as int || i32_at(order, s, at) as int
            == u32_at(order, s, at) as int - 0x1_0000_0000,
        i32_at(order, s, at) >= 0 <==> u32_at(order, s, at) < 0x8000_0000,
{
}

/// A 64-bit number is made of two halves: the low one is unsigned, the high one has the sign. The
/// half at the lower address is the low one in little-endian order only.
pub proof fn halves_make_a_long_number(s: Seq<u8>, at: int)
    ensures
        i64_at(ByteOrder::Little, s, at) as int == i32_at(ByteOrder::Little, s, at + 4) as int
            * 0x1_0000_0000 + u32_at(ByteOrder::Little, s, at) as int,
        i64_at(ByteOrder::Big, s, at) as int == i32_at(ByteOrder::Big, s, at) as int * 0x1_0000_0000
            + u32_at(ByteOrder::Big, s, at + 4) as int,
{
}

/// A write changes the four bytes at its place and no others, and the size of the buffer stays.
pub proof fn writes_touch_four_bytes(order: ByteOrder, s: Seq<u8>, at: int, v: u32, i: int)
    requires
        0 <= at,
        at + 4 <= s.len(),
        0 <= i < s.len(),
        i < at || at + 4 <= i,
    ensures
        patched(s, at, u32_bytes(order, v)).len() == s.len(),
        patched(s, at, u32_bytes(order, v))[i] == s[i],
{
}

} // verus!
