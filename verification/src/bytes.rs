//! Little-endian integer reads and a zero-pair scan over raw byte buffers.

use vstd::prelude::*;

verus! {

/// The 16-bit little-endian value held by the two bytes at `off`.
pub open spec fn spec_u16_le(b: Seq<u8>, off: int) -> u16 {
    (b[off] + b[off + 1] * 0x100) as u16
}

/// The 32-bit little-endian value held by the four bytes at `off`.
pub open spec fn spec_u32_le(b: Seq<u8>, off: int) -> u32 {
    (b[off] + b[off + 1] * 0x100 + b[off + 2] * 0x10000 + b[off + 3] * 0x1000000) as u32
}

/// Reads the 16-bit little-endian value at `offset`.
pub fn read_u16_le(buffer: &[u8], offset: usize) -> (r: u16)
    requires
        offset + 2 <= buffer@.len(),
    ensures
        r == spec_u16_le(buffer@, offset as int),
{
    buffer[offset] as u16 + buffer[offset + 1] as u16 * 0x100
}

/// Reads the 32-bit little-endian value at `offset`.
pub fn read_u32_le(buffer: &[u8], offset: usize) -> (r: u32)
    requires
        offset + 4 <= buffer@.len(),
    ensures
        r == spec_u32_le(buffer@, offset as int),
{
    buffer[offset] as u32 + buffer[offset + 1] as u32 * 0x100 + buffer[offset + 2] as u32
        * 0x10000 + buffer[offset + 3] as u32 * 0x1000000
}

/// Reads a 32-bit little-endian integer field at `offset`.
pub fn read_int(buffer: &[u8], offset: usize) -> (r: u32)
    requires
        offset + 4 <= buffer@.len(),
    ensures
        r == spec_u32_le(buffer@, offset as int),
{
    read_u32_le(buffer, offset)
}

/// Two consecutive zero bytes stand at position `i` of `b`.
pub open spec fn zero_pair_at(b: Seq<u8>, i: int) -> bool {
    b[i] == 0 && b[i + 1] == 0
}

/// Position of the first adjacent pair of zero bytes, or -1 when the buffer
/// holds none.
pub fn find(buffer: &[u8]) -> (r: isize)
    requires
        buffer@.len() <= isize::MAX,
    ensures
        r == -1 ==> forall|i: int| 0 <= i < buffer@.len() - 1 ==> !zero_pair_at(buffer@, i),
        r >= 0 ==> 0 <= r < buffer@.len() - 1 && zero_pair_at(buffer@, r as int) && forall|i: int|
            0 <= i < r ==> !zero_pair_at(buffer@, i),
        r == -1 || r >= 0,
{
    let n = buffer.len();
    if n == 0 {
        return -1;
    }
    let mut i: usize = 0;
    while i < n - 1
        invariant
            n == buffer@.len(),
            n <= isize::MAX,
            n >= 1,
            i <= n - 1,
            forall|j: int| 0 <= j < i ==> !zero_pair_at(buffer@, j),
        decreases n - i,
    {
        if buffer[i] == 0x00 && buffer[i + 1] == 0x00 {
            return i as isize;
        }
        i += 1;
    }
    -1
}

} // verus!
