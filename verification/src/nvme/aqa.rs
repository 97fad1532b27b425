//! Fields of the AQA (Admin Queue Attributes) register.

use vstd::prelude::*;

verus! {

/// Builds the AQA register value from the admin queue sizes (stored 0-based).
pub fn build(sq_size: u16, cq_size: u16) -> (res: u32)
    requires
        sq_size >= 1,
        cq_size >= 1,
    ensures
        res == (cq_size - 1) * 0x1_0000 + (sq_size - 1),
{
    let c: u32 = (cq_size - 1) as u32;
    let s: u32 = (sq_size - 1) as u32;
    let r: u32 = (c << 16u32) | s;
    assert(r == c * 0x1_0000 + s) by (bit_vector)
        requires
            c < 0x1_0000,
            s < 0x1_0000,
            r == (c << 16u32) | s,
    ;
    r
}

} // verus!
