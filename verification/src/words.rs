use vstd::prelude::*;

use crate::endian::Endian;

verus! {

/// The integer encoded by the four bytes `s[i..i+4]` in little-endian order.
pub open spec fn le32(s: Seq<u8>, i: int) -> int
    recommends
        0 <= i,
        i + 4 <= s.len(),
{
    s[i] + 0x100 * s[i + 1] + 0x1_0000 * s[i + 2] + 0x100_0000 * s[i + 3]
}

/// The integer encoded by the four bytes `s[i..i+4]` in big-endian order.
pub open spec fn be32(s: Seq<u8>, i: int) -> int
    recommends
        0 <= i,
        i + 4 <= s.len(),
{
    s[i + 3] + 0x100 * s[i + 2] + 0x1_0000 * s[i + 1] + 0x100_0000 * s[i]
}

/// The integer encoded by the four bytes `s[i..i+4]` in the given byte order.
pub open spec fn word32(s: Seq<u8>, i: int, endianess: Endian) -> int
    recommends
        0 <= i,
        i + 4 <= s.len(),
{
    match endianess {
        Endian::Little => le32(s, i),
        Endian::Big => be32(s, i),
    }
}

/// The integer encoded by the eight bytes `s[i..i+8]` in little-endian order.
pub open spec fn le64(s: Seq<u8>, i: int) -> int
    recommends
        0 <= i,
        i + 8 <= s.len(),
{
    s[i] + 0x100 * s[i + 1] + 0x1_0000 * s[i + 2] + 0x100_0000 * s[i + 3]
        + 0x1_0000_0000 * s[i + 4] + 0x100_0000_0000 * s[i + 5]
        + 0x1_0000_0000_0000 * s[i + 6] + 0x100_0000_0000_0000 * s[i + 7]
}

/// Reads a little-endian `u32` from `data[i..i+4]`.
pub fn read_u32_le(data: &[u8], i: usize) -> (r: u32)
    requires
        i + 4 <= data@.len(),
    ensures
        r as int == le32(data@, i as int),
{
    // Binding the length teaches the verifier that it fits in usize.
    let _n: usize = data.len();
    (data[i] as u32) + 0x100 * (data[i + 1] as u32) + 0x1_0000 * (data[i + 2] as u32)
        + 0x100_0000 * (data[i + 3] as u32)
}

/// Reads a big-endian `u32` from `data[i..i+4]`.
pub fn read_u32_be(data: &[u8], i: usize) -> (r: u32)
    requires
        i + 4 <= data@.len(),
    ensures
        r as int == be32(data@, i as int),
{
    // Binding the length teaches the verifier that it fits in usize.
    let _n: usize = data.len();
    (data[i + 3] as u32) + 0x100 * (data[i + 2] as u32) + 0x1_0000 * (data[i + 1] as u32)
        + 0x100_0000 * (data[i] as u32)
}

/// Reads a `u32` from `data[i..i+4]` in the given byte order.
pub fn read_u32(data: &[u8], i: usize, endianess: Endian) -> (r: u32)
    requires
        i + 4 <= data@.len(),
    ensures
        r as int == word32(data@, i as int, endianess),
{
    match endianess {
        Endian::Little => read_u32_le(data, i),
        Endian::Big => read_u32_be(data, i),
    }
}

/// Reads a little-endian `u64` from `data[i..i+8]`.
pub fn read_u64_le(data: &[u8], i: usize) -> (r: u64)
    requires
        i + 8 <= data@.len(),
    ensures
        r as int == le64(data@, i as int),
{
    // Binding the length teaches the verifier that it fits in usize.
    let _n: usize = data.len();
    (data[i] as u64) + 0x100 * (data[i + 1] as u64) + 0x1_0000 * (data[i + 2] as u64)
        + 0x100_0000 * (data[i + 3] as u64) + 0x1_0000_0000 * (data[i + 4] as u64)
        + 0x100_0000_0000 * (data[i + 5] as u64) + 0x1_0000_0000_0000 * (data[i + 6] as u64)
        + 0x100_0000_0000_0000 * (data[i + 7] as u64)
}

} // verus!
