//! Little-endian readers for the fixed-width fields of the fuzz input
//! layouts, verified against arithmetic specifications.

use vstd::prelude::*;

verus! {

/// The value of the 4 bytes of `s` starting at `i`, read little-endian.
pub open spec fn le32_at(s: Seq<u8>, i: int) -> int
    recommends
        0 <= i,
        i + 4 <= s.len(),
{
    s[i] + s[i + 1] * 0x100 + s[i + 2] * 0x1_0000 + s[i + 3] * 0x100_0000
}

/// The value of the 8 bytes of `s` starting at `i`, read little-endian.
pub open spec fn le64_at(s: Seq<u8>, i: int) -> int
    recommends
        0 <= i,
        i + 8 <= s.len(),
{
    s[i] + s[i + 1] * 0x100 + s[i + 2] * 0x1_0000 + s[i + 3] * 0x100_0000
        + s[i + 4] * 0x1_0000_0000 + s[i + 5] * 0x100_0000_0000
        + s[i + 6] * 0x1_0000_0000_0000 + s[i + 7] * 0x100_0000_0000_0000
}

/// Reads the little-endian 32-bit field at offset `i` of `data`.
pub fn read_le32(data: &[u8], i: usize) -> (x: u32)
    requires
        i + 4 <= data@.len(),
    ensures
        x == le32_at(data@, i as int),
{
    (data[i] as u32) + (data[i + 1] as u32) * 0x100 + (data[i + 2] as u32) * 0x1_0000
        + (data[i + 3] as u32) * 0x100_0000
}

/// Reads the little-endian 64-bit field at offset `i` of `data`.
pub fn read_le64(data: &[u8], i: usize) -> (x: u64)
    requires
        i + 8 <= data@.len(),
    ensures
        x == le64_at(data@, i as int),
{
    (data[i] as u64) + (data[i + 1] as u64) * 0x100 + (data[i + 2] as u64) * 0x1_0000
        + (data[i + 3] as u64) * 0x100_0000 + (data[i + 4] as u64) * 0x1_0000_0000
        + (data[i + 5] as u64) * 0x100_0000_0000 + (data[i + 6] as u64) * 0x1_0000_0000_0000
        + (data[i + 7] as u64) * 0x100_0000_0000_0000
}

} // verus!
