//! Little-endian integers inside byte buffers.
use vstd::prelude::*;

verus! {

/// The little-endian 16-bit value stored at `off`.
pub open spec fn le16(b: Seq<u8>, off: int) -> int {
    b[off] as int + 256 * b[off + 1]
}

/// The little-endian 32-bit value stored at `off`.
pub open spec fn le32(b: Seq<u8>, off: int) -> int {
    le16(b, off) + 65536 * le16(b, off + 2)
}

/// Reads the little-endian `u16` at `off`.
pub fn read_u16_le(b: &[u8], off: usize) -> (r: u16)
    requires
        off + 2 <= b@.len(),
    ensures
        r as int == le16(b@, off as int),
{
    b[off] as u16 + (b[off + 1] as u16) * 256
}

/// Reads the little-endian `u32` at `off`.
pub fn read_u32_le(b: &[u8], off: usize) -> (r: u32)
    requires
        off + 4 <= b.len(),
    ensures
        r as int == le32(b@, off as int),
{
    let lo = read_u16_le(b, off);
    let hi = read_u16_le(b, off + 2);
    lo as u32 + (hi as u32) * 65536
}

} // verus!
