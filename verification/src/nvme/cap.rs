//! Fields of the CAP (Controller Capabilities) register.

use vstd::prelude::*;
use vstd::arithmetic::power2::pow2;

verus! {

/// Maximum Queue Entries Supported (0-based) of a CAP value.
pub open spec fn cap_mqes_field(cap: u64) -> int {
    (cap % 0x1_0000) as int
}

/// Doorbell Stride field of a CAP value (bits 32-35).
pub open spec fn cap_dstrd_field(cap: u64) -> int {
    ((cap / 0x1_0000_0000) % 16) as int
}

/// Timeout field of a CAP value (bits 24-31), in 500 ms units.
pub open spec fn cap_to_field(cap: u64) -> int {
    ((cap / 0x100_0000) % 256) as int
}

/// Memory Page Size Minimum field of a CAP value (bits 48-51).
pub open spec fn cap_mpsmin_field(cap: u64) -> int {
    ((cap / 0x1_0000_0000_0000) % 16) as int
}

/// Memory Page Size Maximum field of a CAP value (bits 52-55).
pub open spec fn cap_mpsmax_field(cap: u64) -> int {
    ((cap / 0x10_0000_0000_0000) % 16) as int
}

/// Returns the maximum number of queue entries (the 0-based field plus one, modulo 2^16).
pub fn mqes(cap: u64) -> (res: u16)
    ensures
        res == (cap_mqes_field(cap) + 1) % 0x1_0000,
{
    let m: u64 = cap & 0xFFFF;
    assert(m == cap % 0x1_0000) by (bit_vector)
        requires
            m == cap & 0xFFFF,
    ;
    if m == 0xFFFF {
        0
    } else {
        (m + 1) as u16
    }
}

/// Returns the doorbell stride field.
pub fn dstrd(cap: u64) -> (res: usize)
    ensures
        res == cap_dstrd_field(cap),
{
    let d: u64 = (cap >> 32u64) & 0xF;
    assert(d == (cap / 0x1_0000_0000) % 16) by (bit_vector)
        requires
            d == (cap >> 32u64) & 0xF,
    ;
    d as usize
}

/// Returns the minimum memory page size in bytes: `2^(12 + MPSMIN)`.
pub fn mpsmin(cap: u64) -> (res: usize)
    ensures
        res == pow2((12 + cap_mpsmin_field(cap)) as nat),
{
    let f: u64 = (cap >> 48u64) & 0xF;
    assert(f == (cap / 0x1_0000_0000_0000) % 16) by (bit_vector)
        requires
            f == (cap >> 48u64) & 0xF,
    ;
    page_size_of_field(f as u32)
}

/// Returns the maximum memory page size in bytes: `2^(12 + MPSMAX)`.
pub fn mpsmax(cap: u64) -> (res: usize)
    ensures
        res == pow2((12 + cap_mpsmax_field(cap)) as nat),
{
    let f: u64 = (cap >> 52u64) & 0xF;
    assert(f == (cap / 0x10_0000_0000_0000) % 16) by (bit_vector)
        requires
            f == (cap >> 52u64) & 0xF,
    ;
    page_size_of_field(f as u32)
}

/// Page size in bytes of a 4-bit page size field: `2^(12 + field)`.
fn page_size_of_field(f: u32) -> (res: usize)
    requires
        f < 16,
    ensures
        res == pow2((12 + f) as nat),
{
    let shift: u32 = 12 + f;
    proof {
        vstd::bits::lemma_u32_pow2_no_overflow(shift as nat);
        vstd::bits::lemma_u32_shl_is_mul(1, shift);
    }
    (1u32 << shift) as usize
}

/// Returns the controller timeout in milliseconds.
pub fn timeout_ms(cap: u64) -> (res: u32)
    ensures
        res == cap_to_field(cap) * 500,
{
    let t: u64 = (cap >> 24u64) & 0xFF;
    assert(t == (cap / 0x100_0000) % 256) by (bit_vector)
        requires
            t == (cap >> 24u64) & 0xFF,
    ;
    (t as u32) * 500
}

} // verus!
