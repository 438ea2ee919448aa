//! Reading integers from bytes in network order.

use vstd::prelude::*;

verus! {

/// The number that four bytes stand for, the first being the most
/// significant.
pub open spec fn be_u32(b0: u8, b1: u8, b2: u8, b3: u8) -> u32 {
    (b0 as u32) << 24 | (b1 as u32) << 16 | (b2 as u32) << 8 | (b3 as u32)
}

/// Reads four bytes of `buf` from `offset` on as one number, the first
/// byte being the most significant.
pub fn unpack_octets_4(buf: &[u8], offset: usize) -> (r: u32)
    requires
        offset + 4 <= buf@.len(),
    ensures
        r == be_u32(
            buf@[offset as int],
            buf@[offset + 1],
            buf@[offset + 2],
            buf@[offset + 3],
        ),
        r == buf@[offset as int] * 0x100_0000 + buf@[offset + 1] * 0x1_0000 + buf@[offset + 2]
            * 0x100 + buf@[offset + 3],
{
    let b0 = buf[offset];
    let b1 = buf[offset + 1];
    let b2 = buf[offset + 2];
    let b3 = buf[offset + 3];
    let r = (b0 as u32) << 24 | (b1 as u32) << 16 | (b2 as u32) << 8 | (b3 as u32);
    assert(((b0 as u32) << 24 | (b1 as u32) << 16 | (b2 as u32) << 8 | (b3 as u32)) == b0
        * 0x100_0000 + b1 * 0x1_0000 + b2 * 0x100 + b3) by (bit_vector);
    r
}

} // verus!
